//! Media planning: the safe output name of a clip and the FFmpeg command
//! lines for previews, thumbnails and exports.

use vstd::prelude::*;
use crate::paths::{
    file_name, file_name_vec, file_stem, file_stem_vec, last_dot, last_name_span, piece_start,
    stem_of, with_extension, with_extension_vec,
};
use crate::models::{AudioTrack, ProbeStream, ProbeTags, clone_opt, opt_view};
use vstd::string::StringExecFns;
use crate::text::{
    chars_of, decimal, eq_str, decimal_vec, ends_with_str, extend_decimal, extend_signed, extend_str,
    has_suffix, is_alnum, is_alnum_exec, is_upper, join, lower_ascii, lower_char, push_string, push_strs, signed_decimal,
    signed_decimal_vec, string_of, string_views, has_infix, lemma_infix_left, lemma_infix_right,
    lemma_infix_self, lemma_join_holds_pieces,
};

verus! {

/// What `str::to_lowercase` returns for the given text (full Unicode case
/// mapping).
pub uninterp spec fn unicode_lowercase(s: Seq<char>) -> Seq<char>;

/// Every character is ASCII.
pub open spec fn is_ascii_text(s: Seq<char>) -> bool {
    forall|i: int| 0 <= i < s.len() ==> (#[trigger] s[i] as u32) < 128
}

/// No character is an ASCII capital.
pub open spec fn has_no_upper(s: Seq<char>) -> bool {
    forall|i: int| 0 <= i < s.len() ==> !is_upper(#[trigger] s[i])
}

/// Calls std `str::to_lowercase`. Claimed: the result is `unicode_lowercase`
/// of the input; on ASCII text it is the ASCII lowercasing (capitals become
/// small letters, everything else stays); and the result holds no ASCII
/// capital. The rest of the Unicode mapping is left unstated.
#[verifier::external_body]
pub(crate) fn to_lowercase(s: &str) -> (r: String)
    ensures
        r@ == unicode_lowercase(s@),
        is_ascii_text(s@) ==> r@ == lower_ascii(s@),
        has_no_upper(r@),
{
    s.to_lowercase()
}

/// Longest name `safe_base_name` produces.
pub const MAX_BASE_NAME: usize = 60;

/// The slug built from `s` character by character: ASCII letters and digits
/// are kept, every run of other characters after the first kept one becomes
/// a single `-`, and building stops once 60 characters are reached.
pub open spec fn slug_scan(s: Seq<char>) -> Seq<char>
    decreases s.len(),
{
    if s.len() == 0 {
        Seq::<char>::empty()
    } else {
        let prev = slug_scan(s.drop_last());
        let c = s.last();
        if prev.len() >= 60 {
            prev
        } else if is_alnum(c) {
            prev.push(c)
        } else if prev.len() > 0 && prev.last() != '-' {
            prev.push('-')
        } else {
            prev
        }
    }
}

/// `str::trim_matches` with one character.
pub open spec fn trim_char(s: Seq<char>, c: char) -> Seq<char>
    decreases s.len(),
{
    if s.len() > 0 && s[0] == c {
        trim_char(s.drop_first(), c)
    } else if s.len() > 0 && s.last() == c {
        trim_char(s.drop_last(), c)
    } else {
        s
    }
}

pub open spec fn clip_word() -> Seq<char> {
    seq!['c', 'l', 'i', 'p']
}

/// The file stem of a clip name, empty when it has none.
pub open spec fn name_stem(name: Seq<char>) -> Seq<char> {
    match file_stem(name) {
        Some(s) => s,
        None => Seq::<char>::empty(),
    }
}

/// The slug of lowercased text: scanned, dashes trimmed, at most 60
/// characters, `clip` when nothing is left.
pub open spec fn finish_slug(lowered: Seq<char>) -> Seq<char> {
    let v = trim_char(slug_scan(lowered), '-');
    let v = if v.len() > 60 {
        v.take(60)
    } else {
        v
    };
    if v.len() == 0 {
        clip_word()
    } else {
        v
    }
}

/// The output name for a clip named `name`: the lowercased file stem made
/// into a slug.
pub open spec fn safe_base_name_spec(name: Seq<char>) -> Seq<char> {
    finish_slug(unicode_lowercase(name_stem(name)))
}

/// The shape every safe name has: non-empty, at most 60 characters, only
/// ASCII letters, digits and `-`, no `-` at either end and no two in a row.
pub open spec fn is_slug(s: Seq<char>) -> bool {
    &&& 0 < s.len() <= 60
    &&& forall|i: int| 0 <= i < s.len() ==> is_alnum(#[trigger] s[i]) || s[i] == '-'
    &&& s[0] != '-'
    &&& s.last() != '-'
    &&& forall|i: int| 0 <= i < s.len() - 1 ==> !(#[trigger] s[i] == '-' && s[i + 1] == '-')
}

/// A slug with no capitals: what `safe_base_name` gives back unchanged.
pub open spec fn is_lower_slug(s: Seq<char>) -> bool {
    is_slug(s) && has_no_upper(s)
}

proof fn lemma_slug_scan_shape(s: Seq<char>)
    ensures
        ({
            let v = slug_scan(s);
            &&& v.len() <= 60
            &&& forall|i: int| 0 <= i < v.len() ==> is_alnum(#[trigger] v[i]) || v[i] == '-'
            &&& v.len() > 0 ==> v[0] != '-'
            &&& forall|i: int| 0 <= i < v.len() - 1 ==> !(#[trigger] v[i] == '-' && v[i + 1] == '-')
        }),
    decreases s.len(),
{
    if s.len() > 0 {
        lemma_slug_scan_shape(s.drop_last());
        let prev = slug_scan(s.drop_last());
        let v = slug_scan(s);
        assert forall|i: int| 0 <= i < v.len() - 1 implies !(#[trigger] v[i] == '-' && v[i
            + 1] == '-') by {
            if i < prev.len() - 1 {
                assert(v[i] == prev[i] && v[i + 1] == prev[i + 1]);
            }
        }
    }
}

proof fn lemma_trim_char_keeps(s: Seq<char>)
    requires
        s.len() <= 60,
        forall|i: int| 0 <= i < s.len() ==> is_alnum(#[trigger] s[i]) || s[i] == '-',
        forall|i: int| 0 <= i < s.len() - 1 ==> !(#[trigger] s[i] == '-' && s[i + 1] == '-'),
    ensures
        ({
            let t = trim_char(s, '-');
            &&& t.len() <= s.len()
            &&& forall|i: int| 0 <= i < t.len() ==> is_alnum(#[trigger] t[i]) || t[i] == '-'
            &&& t.len() > 0 ==> t[0] != '-' && t.last() != '-'
            &&& forall|i: int| 0 <= i < t.len() - 1 ==> !(#[trigger] t[i] == '-' && t[i + 1]
                == '-')
        }),
    decreases s.len(),
{
    if s.len() > 0 && s[0] == '-' {
        let u = s.drop_first();
        assert forall|i: int| 0 <= i < u.len() - 1 implies !(#[trigger] u[i] == '-' && u[i + 1]
            == '-') by {
            assert(u[i] == s[i + 1] && u[i + 1] == s[i + 2]);
        }
        lemma_trim_char_keeps(u);
    } else if s.len() > 0 && s.last() == '-' {
        let u = s.drop_last();
        assert forall|i: int| 0 <= i < u.len() - 1 implies !(#[trigger] u[i] == '-' && u[i + 1]
            == '-') by {
            assert(u[i] == s[i] && u[i + 1] == s[i + 1]);
        }
        lemma_trim_char_keeps(u);
    }
}

proof fn lemma_finish_slug_is_slug(lowered: Seq<char>)
    ensures
        is_slug(finish_slug(lowered)),
        has_no_upper(lowered) ==> has_no_upper(finish_slug(lowered)),
{
    let scanned = slug_scan(lowered);
    lemma_slug_scan_shape(lowered);
    lemma_trim_char_keeps(scanned);
    lemma_slug_scan_no_upper(lowered);
    lemma_trim_char_no_upper(scanned);
    let t = trim_char(scanned, '-');
    let r = finish_slug(lowered);
    if t.len() == 0 {
        assert(r == clip_word());
        assert(r[0] == 'c' && r[1] == 'l' && r[2] == 'i' && r[3] == 'p');
    }
}

proof fn lemma_slug_scan_no_upper(s: Seq<char>)
    ensures
        has_no_upper(s) ==> has_no_upper(slug_scan(s)),
    decreases s.len(),
{
    if s.len() > 0 {
        lemma_slug_scan_no_upper(s.drop_last());
        if has_no_upper(s) {
            assert(has_no_upper(s.drop_last())) by {
                assert forall|i: int| 0 <= i < s.drop_last().len() implies !is_upper(
                    #[trigger] s.drop_last()[i],
                ) by {
                    assert(s.drop_last()[i] == s[i]);
                }
            }
            assert(!is_upper(s[s.len() - 1]));
        }
    }
}

proof fn lemma_trim_char_no_upper(s: Seq<char>)
    ensures
        has_no_upper(s) ==> has_no_upper(trim_char(s, '-')),
    decreases s.len(),
{
    if s.len() > 0 && s[0] == '-' {
        assert forall|i: int| 0 <= i < s.drop_first().len() && has_no_upper(s) implies !is_upper(
            #[trigger] s.drop_first()[i],
        ) by {
            assert(s.drop_first()[i] == s[i + 1]);
        }
        lemma_trim_char_no_upper(s.drop_first());
    } else if s.len() > 0 && s.last() == '-' {
        assert forall|i: int| 0 <= i < s.drop_last().len() && has_no_upper(s) implies !is_upper(
            #[trigger] s.drop_last()[i],
        ) by {
            assert(s.drop_last()[i] == s[i]);
        }
        lemma_trim_char_no_upper(s.drop_last());
    }
}

/// Every name `safe_base_name` can produce is a slug.
pub proof fn lemma_safe_base_name_is_slug(name: Seq<char>)
    ensures
        is_slug(safe_base_name_spec(name)),
{
    lemma_finish_slug_is_slug(unicode_lowercase(name_stem(name)));
}

proof fn lemma_no_slash_start(s: Seq<char>)
    requires
        forall|i: int| 0 <= i < s.len() ==> s[i] != '/',
    ensures
        piece_start(s) == 0,
    decreases s.len(),
{
    if s.len() > 0 {
        lemma_no_slash_start(s.drop_last());
    }
}

proof fn lemma_no_dot(s: Seq<char>)
    requires
        forall|i: int| 0 <= i < s.len() ==> s[i] != '.',
    ensures
        last_dot(s) == -1,
    decreases s.len(),
{
    if s.len() > 0 {
        lemma_no_dot(s.drop_last());
    }
}

/// A slug without capitals is its own stem and its own slug.
proof fn lemma_lower_slug_fixed(s: Seq<char>)
    requires
        is_lower_slug(s),
    ensures
        name_stem(s) == s,
        is_ascii_text(s),
        lower_ascii(s) == s,
        finish_slug(s) == s,
{
    assert forall|i: int| 0 <= i < s.len() implies s[i] != '/' && s[i] != '.' && (#[trigger] s[i]
        as u32) < 128 && lower_char(s[i]) == s[i] by {
        assert(is_alnum(s[i]) || s[i] == '-');
        assert(!is_upper(s[i]));
    }
    lemma_no_slash_start(s);
    lemma_no_dot(s);
    assert(s.last() != '/');
    assert(s.subrange(0, s.len() as int) =~= s);
    assert(s != seq!['.']) by {
        assert(s[0] != '.');
    }
    assert(last_name_span(s) == Some((0int, s.len() as int)));
    assert(s != seq!['.', '.']) by {
        assert(s[0] != '.');
    }
    assert(file_name(s) == Some(s));
    assert(stem_of(s) == s);
    assert(lower_ascii(s) =~= s);
    lemma_slug_scan_fixed(s);
    assert(trim_char(s, '-') == s);
}

/// Scanning a slug gives it back.
proof fn lemma_slug_scan_fixed(s: Seq<char>)
    requires
        s.len() <= 60,
        forall|i: int| 0 <= i < s.len() ==> is_alnum(#[trigger] s[i]) || s[i] == '-',
        s.len() > 0 ==> s[0] != '-',
        forall|i: int| 0 <= i < s.len() - 1 ==> !(#[trigger] s[i] == '-' && s[i + 1] == '-'),
    ensures
        slug_scan(s) == s,
    decreases s.len(),
{
    if s.len() > 0 {
        let d = s.drop_last();
        assert forall|i: int| 0 <= i < d.len() implies is_alnum(#[trigger] d[i]) || d[i] == '-' by {
            assert(d[i] == s[i]);
        }
        assert forall|i: int| 0 <= i < d.len() - 1 implies !(#[trigger] d[i] == '-' && d[i + 1]
            == '-') by {
            assert(d[i] == s[i] && d[i + 1] == s[i + 1]);
        }
        if d.len() > 0 {
            assert(d[0] == s[0]);
        }
        lemma_slug_scan_fixed(d);
        let c = s.last();
        if !is_alnum(c) {
            assert(c == '-');
            assert(s.len() > 1);
            assert(!(s[s.len() - 2] == '-' && s[s.len() - 1] == '-'));
            assert(d.last() == s[s.len() - 2]);
        }
        assert(d.push(c) =~= s);
    }
}

fn trim_dashes(v: &Vec<char>) -> (r: Vec<char>)
    ensures
        r@ == trim_char(v@, '-'),
{
    let mut lo: usize = 0;
    let mut hi: usize = v.len();
    assert(v@.subrange(0, v.len() as int) =~= v@);
    while lo < hi && (v[lo] == '-' || v[hi - 1] == '-')
        invariant
            lo <= hi <= v.len(),
            trim_char(v@, '-') == trim_char(v@.subrange(lo as int, hi as int), '-'),
        decreases hi - lo,
    {
        let ghost u = v@.subrange(lo as int, hi as int);
        if v[lo] == '-' {
            assert(u[0] == v@[lo as int]);
            assert(u.drop_first() =~= v@.subrange(lo + 1, hi as int));
            lo = lo + 1;
        } else {
            assert(u.last() == v@[hi - 1]);
            assert(u.drop_last() =~= v@.subrange(lo as int, hi - 1));
            hi = hi - 1;
        }
    }
    let ghost u = v@.subrange(lo as int, hi as int);
    assert(trim_char(u, '-') == u) by {
        if u.len() > 0 {
            assert(u[0] == v@[lo as int]);
            assert(u.last() == v@[hi - 1]);
        }
    }
    crate::text::subvec(v, lo, hi)
}

/// `safe_base_name`: a file-system and URL safe name derived from a clip's
/// file name, e.g. `../../Round Win!!.mkv` gives `round-win`. The result is
/// a slug without capitals, and such a slug comes back unchanged, so a safe
/// name fed back in gives itself.
pub fn safe_base_name(name: &str) -> (r: String)
    ensures
        r@ == safe_base_name_spec(name@),
        is_ascii_text(name_stem(name@)) ==> r@ == finish_slug(lower_ascii(name_stem(name@))),
        is_lower_slug(r@),
        is_lower_slug(name@) ==> r@ == name@,
{
    let nv = chars_of(name);
    let stem = match file_stem_vec(&nv) {
        Some(s) => s,
        None => Vec::new(),
    };
    let stem_text = string_of(&stem);
    let lowered = to_lowercase(stem_text.as_str());
    let lv = chars_of(lowered.as_str());
    let mut value: Vec<char> = Vec::new();
    let mut i: usize = 0;
    assert(lv@.take(lv@.len() as int) =~= lv@);
    while i < lv.len()
        invariant_except_break
            lv@.take(lv@.len() as int) == lv@,
            i <= lv.len(),
            value@ == slug_scan(lv@.take(i as int)),
            value@.len() < 60,
        ensures
            value@ == slug_scan(lv@),
        decreases lv.len() - i,
    {
        let c = lv[i];
        let ghost pre = lv@.take(i as int);
        assert(lv@.take(i + 1).drop_last() =~= pre);
        if is_alnum_exec(c) {
            value.push(c);
        } else if value.len() > 0 && value[value.len() - 1] != '-' {
            value.push('-');
        }
        i = i + 1;
        if value.len() >= 60 {
            proof {
                lemma_scan_saturates(lv@, i as int);
            }
            break;
        }
    }
    proof {
        if i == lv.len() {
            assert(lv@.take(i as int) =~= lv@);
        }
        lemma_finish_slug_is_slug(lowered@);
        if is_lower_slug(name@) {
            lemma_lower_slug_fixed(name@);
        }
    }
    let trimmed = trim_dashes(&value);
    let mut out: Vec<char> = if trimmed.len() > 60 {
        crate::text::subvec(&trimmed, 0, 60)
    } else {
        trimmed
    };
    if out.len() == 0 {
        out.push('c');
        out.push('l');
        out.push('i');
        out.push('p');
        assert(out@ =~= clip_word());
    }
    string_of(&out)
}

/// Once the scan has reached 60 characters, later input changes nothing.
proof fn lemma_scan_saturates(s: Seq<char>, k: int)
    requires
        0 <= k <= s.len(),
        slug_scan(s.take(k)).len() >= 60,
    ensures
        slug_scan(s) == slug_scan(s.take(k)),
    decreases s.len() - k,
{
    if k < s.len() {
        assert(s.drop_last().take(k) =~= s.take(k));
        lemma_scan_saturates(s.drop_last(), k);
    } else {
        assert(s.take(k) =~= s);
    }
}

} // verus!

verus! {

// ---------------------------------------------------------------------------
// Export command line
// ---------------------------------------------------------------------------

/// The resampling filter for the audio stream at `index`, the `position`-th
/// selected one.
pub open spec fn export_mix_input(index: i64, position: nat) -> Seq<char> {
    "[0:"@ + signed_decimal(index as int) + "]aresample=async=1:first_pts=0[a"@ + decimal(position)
        + "]"@
}

/// The pad label of the `position`-th mixed input.
pub open spec fn mix_pad(position: nat) -> Seq<char> {
    "[a"@ + decimal(position) + "]"@
}

/// The pad labels of the first `n` mixed inputs, concatenated.
pub open spec fn mix_pads(n: nat) -> Seq<char>
    decreases n,
{
    if n == 0 {
        Seq::<char>::empty()
    } else {
        mix_pads((n - 1) as nat) + mix_pad((n - 1) as nat)
    }
}

/// The filter graph that mixes several selected audio streams into `[aout]`.
pub open spec fn export_mix_graph(audio: Seq<i64>) -> Seq<char> {
    join(Seq::new(audio.len(), |i: int| export_mix_input(audio[i], i as nat)), ';') + ";"@
        + mix_pads(audio.len()) + "amix=inputs="@ + decimal(audio.len())
        + ":duration=longest:normalize=1[aout]"@
}

/// Video encoder options: NVENC, Quick Sync and AMF encoders get their own
/// rate control (NVENC with multipass encoding and spatial adaptive
/// quantization, a 20 Mbps target and a 30 Mbps ceiling), anything else
/// falls back to libx264 with its `slow` preset and a 30 Mbps ceiling.
pub open spec fn encoder_args(encoder: Seq<char>, quality: i64, fps: nat) -> Seq<Seq<char>> {
    let q = signed_decimal(quality as int);
    if has_suffix(encoder, "_nvenc"@) {
        seq![
            "-c:v"@, encoder, "-preset"@, "p5"@, "-tune"@, "hq"@, "-multipass"@, "fullres"@,
            "-spatial-aq"@, "1"@, "-rc"@, "vbr"@, "-cq"@, q,
            "-b:v"@, "20M"@, "-maxrate"@, "30M"@, "-bufsize"@, "60M"@, "-g"@,
            decimal(fps * 2), "-profile:v"@, "high"@,
        ]
    } else if has_suffix(encoder, "_qsv"@) {
        seq!["-c:v"@, encoder, "-preset"@, "medium"@, "-global_quality"@, q]
    } else if has_suffix(encoder, "_amf"@) {
        seq![
            "-c:v"@, encoder, "-quality"@, "balanced"@, "-rc"@, "cqp"@, "-qp_i"@, q,
            "-qp_p"@, q,
        ]
    } else {
        seq![
            "-c:v"@, "libx264"@, "-preset"@, "slow"@, "-crf"@, q, "-maxrate"@, "30M"@,
            "-bufsize"@, "60M"@, "-profile:v"@, "high"@,
        ]
    }
}

/// Audio output options: none, the single selected stream, or the mix.
pub open spec fn export_audio_args(audio: Seq<i64>) -> Seq<Seq<char>> {
    if audio.len() == 0 {
        seq!["-an"@]
    } else if audio.len() == 1 {
        seq!["-map"@, "0:"@ + signed_decimal(audio[0] as int), "-c:a"@, "aac"@, "-b:a"@, "192k"@]
    } else {
        seq!["-map"@, "[aout]"@, "-c:a"@, "aac"@, "-b:a"@, "192k"@]
    }
}

pub open spec fn scale_filter() -> Seq<char> {
    "scale=1920:1080:force_original_aspect_ratio=decrease:flags=lanczos,pad=1920:1080:(ow-iw)/2:(oh-ih)/2,fps="@
}

/// The FFmpeg arguments that cut `[start, start + duration)` out of
/// `source` into a 1080p MP4 at `fps` frames per second.
pub open spec fn export_args_spec(
    source: Seq<char>,
    output: Seq<char>,
    start: Seq<char>,
    duration: Seq<char>,
    audio: Seq<i64>,
    fps: nat,
    encoder: Seq<char>,
    quality: i64,
) -> Seq<Seq<char>> {
    seq![
        "-y"@, "-hide_banner"@, "-loglevel"@, "warning"@, "-ss"@, start, "-i"@, source, "-t"@,
        duration,
    ] + (if audio.len() > 1 {
        seq!["-filter_complex"@, export_mix_graph(audio)]
    } else {
        Seq::<Seq<char>>::empty()
    }) + seq!["-map"@, "0:v:0"@, "-vf"@, scale_filter() + decimal(fps)] + encoder_args(
        encoder,
        quality,
        fps,
    ) + seq!["-pix_fmt"@, "yuv420p"@] + export_audio_args(audio) + seq![
        "-movflags"@, "+faststart"@, "-progress"@, "pipe:1"@, "-nostats"@, output,
    ]
}

fn export_mix_graph_text(audio: &Vec<i64>) -> (r: String)
    requires
        audio.len() < usize::MAX,
    ensures
        r@ == export_mix_graph(audio@),
{
    let ghost inputs = Seq::new(audio@.len(), |i: int| export_mix_input(audio@[i], i as nat));
    let mut g: Vec<char> = Vec::new();
    for i in 0..audio.len()
        invariant
            inputs == Seq::new(audio@.len(), |i: int| export_mix_input(audio@[i], i as nat)),
            g@ == join(inputs.take(i as int), ';'),
    {
        let ghost pre = g@;
        assert(inputs.take(i + 1).drop_last() =~= inputs.take(i as int));
        if i > 0 {
            g.push(';');
        }
        extend_str(&mut g, "[0:");
        extend_signed(&mut g, audio[i]);
        extend_str(&mut g, "]aresample=async=1:first_pts=0[a");
        extend_decimal(&mut g, i as u128);
        extend_str(&mut g, "]");
        if i == 0 {
            assert(g@ =~= inputs.take(1)[0]);
        } else {
            assert(g@ =~= pre.push(';') + inputs[i as int]);
        }
    }
    assert(inputs.take(audio.len() as int) =~= inputs);
    extend_str(&mut g, ";");
    for i in 0..audio.len()
        invariant
            g@ == join(inputs, ';') + ";"@ + mix_pads(i as nat),
    {
        let ghost pre = g@;
        extend_str(&mut g, "[a");
        extend_decimal(&mut g, i as u128);
        extend_str(&mut g, "]");
        assert(g@ =~= pre + mix_pad(i as nat));
    }
    extend_str(&mut g, "amix=inputs=");
    extend_decimal(&mut g, audio.len() as u128);
    extend_str(&mut g, ":duration=longest:normalize=1[aout]");
    string_of(&g)
}

fn text_of_decimal(n: u128) -> (r: String)
    ensures
        r@ == decimal(n as nat),
{
    string_of(&decimal_vec(n))
}

fn text_of_signed(n: i64) -> (r: String)
    ensures
        r@ == signed_decimal(n as int),
{
    string_of(&signed_decimal_vec(n))
}

fn encoder_args_exec(args: &mut Vec<String>, encoder: &str, quality: i64, fps: i64)
    requires
        1 <= fps <= 120,
    ensures
        string_views(final(args)@) == string_views(old(args)@) + encoder_args(
            encoder@,
            quality,
            fps as nat,
        ),
{
    let ev = chars_of(encoder);
    let ghost before = string_views(args@);
    if ends_with_str(&ev, "_nvenc") {
        push_strs(args, &["-c:v"]);
        push_string(args, String::from_str(encoder));
        push_strs(
            args,
            &["-preset", "p5", "-tune", "hq", "-multipass", "fullres", "-spatial-aq", "1", "-rc", "vbr", "-cq"],
        );
        push_string(args, text_of_signed(quality));
        push_strs(args, &["-b:v", "20M", "-maxrate", "30M", "-bufsize", "60M", "-g"]);
        push_string(args, text_of_decimal((fps * 2) as u128));
        push_strs(args, &["-profile:v", "high"]);
    } else if ends_with_str(&ev, "_qsv") {
        push_strs(args, &["-c:v"]);
        push_string(args, String::from_str(encoder));
        push_strs(args, &["-preset", "medium", "-global_quality"]);
        push_string(args, text_of_signed(quality));
    } else if ends_with_str(&ev, "_amf") {
        push_strs(args, &["-c:v"]);
        push_string(args, String::from_str(encoder));
        push_strs(args, &["-quality", "balanced", "-rc", "cqp", "-qp_i"]);
        push_string(args, text_of_signed(quality));
        push_strs(args, &["-qp_p"]);
        push_string(args, text_of_signed(quality));
    } else {
        push_strs(args, &["-c:v", "libx264", "-preset", "slow", "-crf"]);
        push_string(args, text_of_signed(quality));
        push_strs(args, &["-maxrate", "30M", "-bufsize", "60M", "-profile:v", "high"]);
    }
    assert(string_views(args@) =~= before + encoder_args(encoder@, quality, fps as nat));
}

/// `export_args`: the FFmpeg command line that exports a trimmed selection.
/// `start` and `duration` are the selection bounds already written in
/// seconds, `output_fps` the frame rate the export keeps.
pub fn export_args(
    source: &str,
    output: &str,
    start: &str,
    duration: &str,
    audio_stream_indexes: &Vec<i64>,
    output_fps: i64,
    encoder: &str,
    quality: i64,
) -> (r: Vec<String>)
    requires
        1 <= output_fps <= 120,
        audio_stream_indexes.len() < usize::MAX,
    ensures
        string_views(r@) == export_args_spec(
            source@,
            output@,
            start@,
            duration@,
            audio_stream_indexes@,
            output_fps as nat,
            encoder@,
            quality,
        ),
{
    let mut args: Vec<String> = Vec::new();
    push_strs(&mut args, &["-y", "-hide_banner", "-loglevel", "warning", "-ss"]);
    push_string(&mut args, String::from_str(start));
    push_strs(&mut args, &["-i"]);
    push_string(&mut args, String::from_str(source));
    push_strs(&mut args, &["-t"]);
    push_string(&mut args, String::from_str(duration));
    let ghost head = string_views(args@);
    if audio_stream_indexes.len() > 1 {
        push_strs(&mut args, &["-filter_complex"]);
        push_string(&mut args, export_mix_graph_text(audio_stream_indexes));
    }
    let ghost with_mix = string_views(args@);
    push_strs(&mut args, &["-map", "0:v:0", "-vf"]);
    let mut vf: Vec<char> = chars_of(
        "scale=1920:1080:force_original_aspect_ratio=decrease:flags=lanczos,pad=1920:1080:(ow-iw)/2:(oh-ih)/2,fps=",
    );
    extend_decimal(&mut vf, output_fps as u128);
    push_string(&mut args, string_of(&vf));
    let ghost with_video = string_views(args@);
    encoder_args_exec(&mut args, encoder, quality, output_fps);
    let ghost with_encoder = string_views(args@);
    push_strs(&mut args, &["-pix_fmt", "yuv420p"]);
    let ghost with_pix = string_views(args@);
    if audio_stream_indexes.len() == 0 {
        push_strs(&mut args, &["-an"]);
    } else if audio_stream_indexes.len() == 1 {
        push_strs(&mut args, &["-map"]);
        let mut m: Vec<char> = chars_of("0:");
        extend_signed(&mut m, audio_stream_indexes[0]);
        push_string(&mut args, string_of(&m));
        push_strs(&mut args, &["-c:a", "aac", "-b:a", "192k"]);
    } else {
        push_strs(&mut args, &["-map", "[aout]", "-c:a", "aac", "-b:a", "192k"]);
    }
    assert(string_views(args@) =~= with_pix + export_audio_args(audio_stream_indexes@));
    let ghost with_audio = string_views(args@);
    push_strs(&mut args, &["-movflags", "+faststart", "-progress", "pipe:1", "-nostats"]);
    push_string(&mut args, String::from_str(output));
    assert(string_views(args@) =~= export_args_spec(
        source@,
        output@,
        start@,
        duration@,
        audio_stream_indexes@,
        output_fps as nat,
        encoder@,
        quality,
    ));
    args
}

} // verus!

verus! {

// ---------------------------------------------------------------------------
// Probe results
// ---------------------------------------------------------------------------

/// The streams FFprobe reports as audio, in order.
pub open spec fn audio_streams(streams: Seq<ProbeStream>) -> Seq<ProbeStream>
    decreases streams.len(),
{
    if streams.len() == 0 {
        Seq::<ProbeStream>::empty()
    } else {
        let rest = audio_streams(streams.drop_last());
        if streams.last().codec_type@ == "audio"@ {
            rest.push(streams.last())
        } else {
            rest
        }
    }
}

/// The title tag of a stream, if any.
pub open spec fn tag_title(tags: Option<ProbeTags>) -> Option<Seq<char>> {
    match tags {
        Some(t) => opt_view(t.title),
        None => None,
    }
}

/// The language tag of a stream, if any.
pub open spec fn tag_language(tags: Option<ProbeTags>) -> Option<Seq<char>> {
    match tags {
        Some(t) => opt_view(t.language),
        None => None,
    }
}

pub open spec fn unknown_word() -> Seq<char> {
    "unknown"@
}

/// The track record made from the `ordinal`-th audio stream.
pub open spec fn track_matches(t: AudioTrack, s: ProbeStream, ordinal: int) -> bool {
    &&& t.stream_index == s.index
    &&& t.ordinal == ordinal
    &&& t.codec@ == (match s.codec_name {
        Some(c) => c@,
        None => unknown_word(),
    })
    &&& t.channels == (match s.channels {
        Some(c) => c,
        None => 0,
    })
    &&& opt_view(t.channel_layout) == opt_view(s.channel_layout)
    &&& opt_view(t.title) == tag_title(s.tags)
    &&& opt_view(t.language) == tag_language(s.tags)
}

fn tags_title(tags: &Option<ProbeTags>) -> (r: Option<String>)
    ensures
        opt_view(r) == tag_title(*tags),
{
    match tags {
        Some(t) => clone_opt(&t.title),
        None => None,
    }
}

fn tags_language(tags: &Option<ProbeTags>) -> (r: Option<String>)
    ensures
        opt_view(r) == tag_language(*tags),
{
    match tags {
        Some(t) => clone_opt(&t.language),
        None => None,
    }
}

/// The audio tracks of a probed file: one per audio stream, numbered by
/// position among the audio streams.
pub fn audio_tracks_from_streams(streams: &Vec<ProbeStream>) -> (r: Vec<AudioTrack>)
    requires
        streams@.len() <= i64::MAX,
    ensures
        r@.len() == audio_streams(streams@).len(),
        forall|i: int|
            0 <= i < r@.len() ==> track_matches(#[trigger] r@[i], audio_streams(streams@)[i], i),
{
    let mut r: Vec<AudioTrack> = Vec::new();
    for i in 0..streams.len()
        invariant
            streams@.len() <= i64::MAX,
            r@.len() == audio_streams(streams@.take(i as int)).len(),
            r@.len() <= i,
            forall|j: int|
                0 <= j < r@.len() ==> track_matches(
                    #[trigger] r@[j],
                    audio_streams(streams@.take(i as int))[j],
                    j,
                ),
    {
        let ghost pre = streams@.take(i as int);
        assert(streams@.take(i + 1).drop_last() =~= pre);
        let s = &streams[i];
        let kind = chars_of(s.codec_type.as_str());
        if eq_str(&kind, "audio") {
            let codec = match &s.codec_name {
                Some(c) => c.clone(),
                None => String::from_str("unknown"),
            };
            let channels = match s.channels {
                Some(c) => c,
                None => 0,
            };
            let t = AudioTrack {
                stream_index: s.index,
                ordinal: r.len() as i64,
                codec,
                channels,
                channel_layout: clone_opt(&s.channel_layout),
                title: tags_title(&s.tags),
                language: tags_language(&s.tags),
            };
            assert(audio_streams(streams@.take(i + 1)) == audio_streams(pre).push(*s));
            r.push(t);
        } else {
            assert(audio_streams(streams@.take(i + 1)) == audio_streams(pre));
        }
    }
    assert(streams@.take(streams.len() as int) =~= streams@);
    r
}

/// Position of the first stream FFprobe reports as video.
pub open spec fn is_first_video(streams: Seq<ProbeStream>, k: int) -> bool {
    &&& 0 <= k < streams.len()
    &&& streams[k].codec_type@ == "video"@
    &&& forall|j: int| 0 <= j < k ==> streams[j].codec_type@ != "video"@
}

/// The position of the video stream a clip is read from: the first one.
pub fn video_stream_position(streams: &Vec<ProbeStream>) -> (r: Option<usize>)
    ensures
        match r {
            Some(k) => is_first_video(streams@, k as int),
            None => forall|j: int| 0 <= j < streams@.len() ==> streams@[j].codec_type@ != "video"@,
        },
{
    for i in 0..streams.len()
        invariant
            forall|j: int| 0 <= j < i ==> streams@[j].codec_type@ != "video"@,
    {
        let kind = chars_of(streams[i].codec_type.as_str());
        if eq_str(&kind, "video") {
            return Some(i);
        }
    }
    None
}

pub open spec fn untitled_clip() -> Seq<char> {
    "Untitled clip"@
}

/// The name a probed clip gets: the given display name, else the file name
/// of its source, else `Untitled clip`.
pub open spec fn clip_name_spec(display_name: Option<Seq<char>>, source: Seq<char>) -> Seq<char> {
    match display_name {
        Some(n) => n,
        None => match file_name(source) {
            Some(n) => n,
            None => untitled_clip(),
        },
    }
}

pub fn clip_name(display_name: Option<String>, source: &str) -> (r: String)
    ensures
        r@ == clip_name_spec(opt_view(display_name), source@),
{
    match display_name {
        Some(n) => n,
        None => {
            let sv = chars_of(source);
            match file_name_vec(&sv) {
                Some(n) => string_of(&n),
                None => String::from_str("Untitled clip"),
            }
        },
    }
}

/// The identity of a source file on disk: `path:size:modified-millis`.
pub open spec fn fingerprint_spec(source: Seq<char>, size: u64, modified_millis: u128) -> Seq<char> {
    source.push(':') + decimal(size as nat) + seq![':'] + decimal(modified_millis as nat)
}

pub fn fingerprint(source: &str, size: u64, modified_millis: u128) -> (r: String)
    ensures
        r@ == fingerprint_spec(source@, size, modified_millis),
{
    let mut v = chars_of(source);
    v.push(':');
    extend_decimal(&mut v, size as u128);
    v.push(':');
    extend_decimal(&mut v, modified_millis);
    let ghost a = source@.push(':') + decimal(size as nat);
    assert(v@ =~= a.push(':') + decimal(modified_millis as nat));
    assert(a.push(':') =~= a + seq![':']);
    string_of(&v)
}

/// What chrono gives for the instant `secs` seconds and `nanos` nanoseconds
/// after the Unix epoch: `DateTime::<Utc>::from_timestamp` written out by
/// `to_rfc3339`, or `None` where the instant is out of chrono's range.
pub uninterp spec fn rfc3339_utc(secs: i64, nanos: u32) -> Option<Seq<char>>;

/// Calls chrono `DateTime::<Utc>::from_timestamp` and, on its result,
/// `to_rfc3339`. Claimed: the result is `rfc3339_utc` of the arguments. The
/// text itself (date, time, fraction and `+00:00` offset) is left unstated.
#[verifier::external_body]
fn rfc3339_text(secs: i64, nanos: u32) -> (r: Option<String>)
    ensures
        opt_view(r) == rfc3339_utc(secs, nanos),
{
    chrono::DateTime::<chrono::Utc>::from_timestamp(secs, nanos).map(|t| t.to_rfc3339())
}

/// The first of the three candidates for a clip's creation time that is
/// there: the container's creation-time tag, the file's modification time,
/// the current time.
pub open spec fn first_present(
    tag: Option<Seq<char>>,
    modified: Option<Seq<char>>,
    now: Option<Seq<char>>,
) -> Option<Seq<char>> {
    match tag {
        Some(t) => Some(t),
        None => match modified {
            Some(m) => Some(m),
            None => now,
        },
    }
}

/// Picks a clip's creation time from texts already written out.
pub fn pick_created_at(
    creation_tag: Option<String>,
    modified_text: Option<String>,
    now_text: Option<String>,
) -> (r: Option<String>)
    ensures
        opt_view(r) == first_present(
            opt_view(creation_tag),
            opt_view(modified_text),
            opt_view(now_text),
        ),
{
    match creation_tag {
        Some(t) => Some(t),
        None => match modified_text {
            Some(m) => Some(m),
            None => now_text,
        },
    }
}

/// The RFC 3339 text of an optional instant.
pub open spec fn instant_text(t: Option<(i64, u32)>) -> Option<Seq<char>> {
    match t {
        Some((secs, nanos)) => rfc3339_utc(secs, nanos),
        None => None,
    }
}

/// When a clip was created: the container's creation-time tag as it stands;
/// without one, the file's modification time, and failing that the current
/// time, each written as RFC 3339 in UTC. Instants are seconds and
/// nanoseconds after the Unix epoch.
pub fn created_at(creation_tag: Option<String>, modified: Option<(i64, u32)>, now: (i64, u32)) -> (r:
    Option<String>)
    ensures
        opt_view(r) == first_present(
            opt_view(creation_tag),
            instant_text(modified),
            rfc3339_utc(now.0, now.1),
        ),
        creation_tag is Some ==> opt_view(r) == opt_view(creation_tag),
{
    let modified_text = match modified {
        Some((secs, nanos)) => rfc3339_text(secs, nanos),
        None => None,
    };
    let now_text = rfc3339_text(now.0, now.1);
    pick_created_at(creation_tag, modified_text, now_text)
}

/// An export of two or more audio streams mixes every one of them: the
/// argument after `-filter_complex` feeds stream `[0:k]` of each selected
/// index `k`, in its place, into the mix, and the mix takes exactly as many
/// inputs as there are selected streams.
pub proof fn lemma_export_mixes_every_selected_stream(
    source: Seq<char>,
    output: Seq<char>,
    start: Seq<char>,
    duration: Seq<char>,
    audio: Seq<i64>,
    fps: nat,
    encoder: Seq<char>,
    quality: i64,
    j: int,
)
    requires
        audio.len() > 1,
        0 <= j < audio.len(),
    ensures
        ({
            let args = export_args_spec(source, output, start, duration, audio, fps, encoder, quality);
            &&& args[10] == "-filter_complex"@
            &&& has_infix(
                args[11],
                "[0:"@ + signed_decimal(audio[j] as int) + "]aresample=async=1:first_pts=0[a"@
                    + decimal(j as nat) + "]"@,
            )
            &&& has_infix(
                args[11],
                "amix=inputs="@ + decimal(audio.len()) + ":duration=longest:normalize=1[aout]"@,
            )
        }),
{
    let inputs = Seq::new(audio.len(), |i: int| export_mix_input(audio[i], i as nat));
    let joined = join(inputs, ';');
    let head = joined + ";"@ + mix_pads(audio.len());
    let amix = "amix=inputs="@ + decimal(audio.len()) + ":duration=longest:normalize=1[aout]"@;
    let graph = export_mix_graph(audio);
    assert(graph =~= joined + (";"@ + mix_pads(audio.len()) + amix));
    assert(graph =~= head + amix);
    lemma_join_holds_pieces(inputs, ';', j);
    assert(inputs[j] == export_mix_input(audio[j], j as nat));
    lemma_infix_left(joined, ";"@ + mix_pads(audio.len()) + amix, inputs[j]);
    lemma_infix_self(amix);
    lemma_infix_right(head, amix, amix);
    let args = export_args_spec(source, output, start, duration, audio, fps, encoder, quality);
    let fixed = seq![
        "-y"@, "-hide_banner"@, "-loglevel"@, "warning"@, "-ss"@, start, "-i"@, source, "-t"@,
        duration,
    ];
    let mix = seq!["-filter_complex"@, graph];
    assert(args[10] == (fixed + mix)[10]);
    assert(args[11] == (fixed + mix)[11]);
}

/// An export without audio streams drops the audio (`-an`); an export of
/// one stream maps that stream, `0:k`, directly.
pub proof fn lemma_export_single_or_no_audio(
    source: Seq<char>,
    output: Seq<char>,
    start: Seq<char>,
    duration: Seq<char>,
    audio: Seq<i64>,
    fps: nat,
    encoder: Seq<char>,
    quality: i64,
)
    requires
        audio.len() <= 1,
    ensures
        ({
            let args = export_args_spec(source, output, start, duration, audio, fps, encoder, quality);
            &&& audio.len() == 0 ==> args.contains("-an"@)
            &&& audio.len() == 1 ==> args.contains("0:"@ + signed_decimal(audio[0] as int))
        }),
{
    let args = export_args_spec(source, output, start, duration, audio, fps, encoder, quality);
    let fixed = seq![
        "-y"@, "-hide_banner"@, "-loglevel"@, "warning"@, "-ss"@, start, "-i"@, source, "-t"@,
        duration,
    ];
    let vf = seq!["-map"@, "0:v:0"@, "-vf"@, scale_filter() + decimal(fps)];
    let enc = encoder_args(encoder, quality, fps);
    let pix = seq!["-pix_fmt"@, "yuv420p"@];
    let aud = export_audio_args(audio);
    let tail = seq!["-movflags"@, "+faststart"@, "-progress"@, "pipe:1"@, "-nostats"@, output];
    let front = fixed + Seq::<Seq<char>>::empty() + vf + enc + pix;
    assert(args =~= front + aud + tail);
    let at = front.len() as int;
    if audio.len() == 0 {
        assert(args[at] == aud[0]);
    } else {
        assert(args[at + 1] == aud[1]);
    }
}

// ---------------------------------------------------------------------------
// Previews, thumbnails, encoder detection
// ---------------------------------------------------------------------------

/// The browser preview: a 720-line, 30 fps H.264/AAC proxy MP4 with
/// fast start.
pub open spec fn preview_video_args(source: Seq<char>, output: Seq<char>) -> Seq<Seq<char>> {
    seq![
        "-y"@, "-hide_banner"@, "-loglevel"@, "error"@, "-i"@, source, "-map"@, "0:v:0"@,
        "-map"@, "0:a:0?"@, "-vf"@,
        "scale=-2:720:flags=fast_bilinear,fps=30"@,
        "-c:v"@, "libx264"@, "-preset"@, "veryfast"@, "-crf"@, "30"@, "-tune"@,
        "fastdecode"@, "-g"@, "15"@, "-keyint_min"@, "15"@, "-sc_threshold"@, "0"@, "-bf"@,
        "0"@, "-pix_fmt"@, "yuv420p"@, "-c:a"@, "aac"@, "-b:a"@, "96k"@, "-movflags"@,
        "+faststart"@, "-f"@, "mp4"@, output,
    ]
}

pub open spec fn preview_thumbnail_args(source: Seq<char>, output: Seq<char>) -> Seq<Seq<char>> {
    seq![
        "-y"@, "-hide_banner"@, "-loglevel"@, "error"@, "-ss"@, "0.250"@, "-i"@, source,
        "-frames:v"@, "1"@, "-vf"@,
        "scale=320:-2:force_original_aspect_ratio=decrease:flags=fast_bilinear"@, "-q:v"@,
        "4"@, output,
    ]
}

/// What making a preview does: transcode into working files next to the
/// targets, then move them into place.
pub struct PreviewPlan {
    pub temporary_output: String,
    pub temporary_thumbnail: String,
    pub video_args: Vec<String>,
    pub thumbnail_args: Vec<String>,
}

/// The preview plan for `source`: `output` and `thumbnail` with the
/// extensions `working.mp4` and `working.jpg` while being written.
pub fn preview_plan(source: &str, output: &str, thumbnail: &str) -> (r: PreviewPlan)
    ensures
        r.temporary_output@ == with_extension(output@, "working.mp4"@),
        r.temporary_thumbnail@ == with_extension(thumbnail@, "working.jpg"@),
        string_views(r.video_args@) == preview_video_args(source@, r.temporary_output@),
        string_views(r.thumbnail_args@) == preview_thumbnail_args(
            source@,
            r.temporary_thumbnail@,
        ),
{
    let ov = chars_of(output);
    let tv = chars_of(thumbnail);
    let tmp_out = string_of(&with_extension_vec(&ov, &chars_of("working.mp4")));
    let tmp_thumb = string_of(&with_extension_vec(&tv, &chars_of("working.jpg")));
    let mut video: Vec<String> = Vec::new();
    push_strs(&mut video, &["-y", "-hide_banner", "-loglevel", "error", "-i"]);
    push_string(&mut video, String::from_str(source));
    push_strs(
        &mut video,
        &[
            "-map",
            "0:v:0",
            "-map",
            "0:a:0?",
            "-vf",
            "scale=-2:720:flags=fast_bilinear,fps=30",
            "-c:v",
            "libx264",
            "-preset",
            "veryfast",
            "-crf",
            "30",
            "-tune",
            "fastdecode",
            "-g",
            "15",
            "-keyint_min",
            "15",
            "-sc_threshold",
            "0",
            "-bf",
            "0",
            "-pix_fmt",
            "yuv420p",
            "-c:a",
            "aac",
            "-b:a",
            "96k",
            "-movflags",
            "+faststart",
            "-f",
            "mp4",
        ],
    );
    push_string(&mut video, String::from_str(tmp_out.as_str()));
    assert(string_views(video@) =~= preview_video_args(source@, tmp_out@));
    let mut thumb: Vec<String> = Vec::new();
    push_strs(&mut thumb, &["-y", "-hide_banner", "-loglevel", "error", "-ss", "0.250", "-i"]);
    push_string(&mut thumb, String::from_str(source));
    push_strs(
        &mut thumb,
        &[
            "-frames:v",
            "1",
            "-vf",
            "scale=320:-2:force_original_aspect_ratio=decrease:flags=fast_bilinear",
            "-q:v",
            "4",
        ],
    );
    push_string(&mut thumb, String::from_str(tmp_thumb.as_str()));
    assert(string_views(thumb@) =~= preview_thumbnail_args(source@, tmp_thumb@));
    PreviewPlan {
        temporary_output: tmp_out,
        temporary_thumbnail: tmp_thumb,
        video_args: video,
        thumbnail_args: thumb,
    }
}

pub open spec fn thumbnail_args_spec(seek: Seq<char>, video: Seq<char>, output: Seq<char>) -> Seq<
    Seq<char>,
> {
    seq![
        "-y"@, "-hide_banner"@, "-loglevel"@, "error"@, "-ss"@, seek, "-i"@, video,
        "-frames:v"@, "1"@, "-vf"@,
        "scale=1280:720:force_original_aspect_ratio=decrease:flags=lanczos,pad=1280:720:(ow-iw)/2:(oh-ih)/2"@,
        "-q:v"@, "2"@, output,
    ]
}

/// The FFmpeg arguments that grab one 1280x720 frame at `seek` seconds.
pub fn thumbnail_args(seek: &str, video: &str, output: &str) -> (r: Vec<String>)
    ensures
        string_views(r@) == thumbnail_args_spec(seek@, video@, output@),
{
    let mut a: Vec<String> = Vec::new();
    push_strs(&mut a, &["-y", "-hide_banner", "-loglevel", "error", "-ss"]);
    push_string(&mut a, String::from_str(seek));
    push_strs(&mut a, &["-i"]);
    push_string(&mut a, String::from_str(video));
    push_strs(
        &mut a,
        &[
            "-frames:v",
            "1",
            "-vf",
            "scale=1280:720:force_original_aspect_ratio=decrease:flags=lanczos,pad=1280:720:(ow-iw)/2:(oh-ih)/2",
            "-q:v",
            "2",
        ],
    );
    push_string(&mut a, String::from_str(output));
    assert(string_views(a@) =~= thumbnail_args_spec(seek@, video@, output@));
    a
}

/// The hardware encoders tried, in order of preference.
pub open spec fn encoder_candidate(i: int) -> Seq<char> {
    if i == 0 {
        "h264_nvenc"@
    } else if i == 1 {
        "h264_qsv"@
    } else {
        "h264_amf"@
    }
}

pub const ENCODER_CANDIDATES: usize = 3;

/// The hardware encoder to try at position `i` (`i < 3`).
pub fn encoder_candidate_name(i: usize) -> (r: String)
    requires
        i < ENCODER_CANDIDATES,
    ensures
        r@ == encoder_candidate(i as int),
{
    if i == 0 {
        String::from_str("h264_nvenc")
    } else if i == 1 {
        String::from_str("h264_qsv")
    } else {
        String::from_str("h264_amf")
    }
}

/// `detect_encoder`'s decision, given which trial encodes succeeded.
pub fn detect_encoder_choice(succeeded: &Vec<bool>) -> (r: String)
    requires
        succeeded.len() <= ENCODER_CANDIDATES,
    ensures
        r@ == chosen_encoder_from(succeeded@, 0),
{
    let mut i: usize = 0;
    while i < succeeded.len()
        invariant
            i <= succeeded.len() <= ENCODER_CANDIDATES,
            chosen_encoder_from(succeeded@, 0) == chosen_encoder_from(succeeded@, i as int),
        decreases succeeded.len() - i,
    {
        if succeeded[i] {
            return encoder_candidate_name(i);
        }
        i = i + 1;
    }
    String::from_str("libx264")
}

/// The first candidate at or after `i` whose trial succeeded, else `libx264`.
pub open spec fn chosen_encoder_from(succeeded: Seq<bool>, i: int) -> Seq<char>
    decreases succeeded.len() - i,
{
    if i < 0 || i >= succeeded.len() {
        "libx264"@
    } else if succeeded[i] {
        encoder_candidate(i)
    } else {
        chosen_encoder_from(succeeded, i + 1)
    }
}

/// Skipping trials that failed does not change the choice.
proof fn lemma_choice_skips_failures(succeeded: Seq<bool>, k: int, i: int)
    requires
        0 <= k <= i,
        forall|j: int| k <= j < i ==> !succeeded[j],
    ensures
        chosen_encoder_from(succeeded, k) == chosen_encoder_from(succeeded, i),
    decreases i - k,
{
    if k < i {
        lemma_choice_skips_failures(succeeded, k + 1, i);
    }
}

/// Export uses the first hardware encoder whose trial encode succeeded, in
/// the order NVENC, Quick Sync, AMF, and libx264 when none did.
pub proof fn lemma_first_working_encoder_is_chosen(succeeded: Seq<bool>, i: int)
    requires
        succeeded.len() <= 3,
        0 <= i <= succeeded.len(),
        forall|j: int| 0 <= j < i ==> !succeeded[j],
        i < succeeded.len() ==> succeeded[i],
    ensures
        chosen_encoder_from(succeeded, 0) == (if i == succeeded.len() {
            "libx264"@
        } else if i == 0 {
            "h264_nvenc"@
        } else if i == 1 {
            "h264_qsv"@
        } else {
            "h264_amf"@
        }),
{
    lemma_choice_skips_failures(succeeded, 0, i);
}

} // verus!
