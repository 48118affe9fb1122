//! Video encoders the recorder reports, and how the settings screen names
//! the selected one and decides which of its settings to offer.

use vstd::prelude::*;
use crate::text::{chars_of, eq_ignore_case, eq_ignore_case_str, extend_str, seq_eq, string_of, trim, trim_vec};

verus! {

/// A tunable setting of an encoder, identified by its key.
#[derive(Debug)]
pub struct EncoderSettingCapability {
    pub key: String,
}

/// A video encoder the recorder can use.
#[derive(Debug)]
pub struct EncoderCapability {
    pub id: String,
    pub label: String,
    pub hardware: bool,
    pub settings: Vec<EncoderSettingCapability>,
}

/// Whether a selection means "let the recorder choose": blank after
/// trimming, or `auto` in any case.
pub open spec fn means_automatic(selected: Seq<char>) -> bool {
    trim(selected).len() == 0 || eq_ignore_case(selected, "auto"@)
}

/// `encoder_display_name`: the label, marked when the encoder is hardware.
pub open spec fn display_name_spec(e: EncoderCapability) -> Seq<char> {
    if e.hardware {
        e.label@ + " (hardware)"@
    } else {
        e.label@
    }
}

pub fn encoder_display_name(encoder: &EncoderCapability) -> (r: String)
    ensures
        r@ == display_name_spec(*encoder),
{
    let mut v = chars_of(encoder.label.as_str());
    if encoder.hardware {
        extend_str(&mut v, " (hardware)");
    }
    string_of(&v)
}

/// The first encoder whose id is `id`, if any.
pub open spec fn first_with_id(encoders: Seq<EncoderCapability>, id: Seq<char>) -> Option<int> {
    if exists|i: int| 0 <= i < encoders.len() && (#[trigger] encoders[i]).id@ == id {
        Some(
            choose|i: int|
                0 <= i < encoders.len() && (#[trigger] encoders[i]).id@ == id && forall|j: int|
                    0 <= j < i ==> (#[trigger] encoders[j]).id@ != id,
        )
    } else {
        None
    }
}

proof fn lemma_first_with_id(encoders: Seq<EncoderCapability>, id: Seq<char>, i: int)
    requires
        0 <= i < encoders.len(),
        encoders[i].id@ == id,
        forall|j: int| 0 <= j < i ==> (#[trigger] encoders[j]).id@ != id,
    ensures
        first_with_id(encoders, id) == Some(i),
{
    let c = choose|k: int|
        0 <= k < encoders.len() && (#[trigger] encoders[k]).id@ == id && forall|j: int|
            0 <= j < k ==> (#[trigger] encoders[j]).id@ != id;
    assert(0 <= c < encoders.len() && encoders[c].id@ == id && forall|j: int|
        0 <= j < c ==> (#[trigger] encoders[j]).id@ != id);
    if c < i {
        assert(encoders[c].id@ != id);
    } else if c > i {
        assert(encoders[i].id@ != id);
    }
}

/// Index of the first encoder with the given id.
fn find_encoder(encoders: &Vec<EncoderCapability>, id: &Vec<char>) -> (r: Option<usize>)
    ensures
        match r {
            Some(i) => i < encoders@.len() && first_with_id(encoders@, id@) == Some(i as int),
            None => first_with_id(encoders@, id@) is None,
        },
{
    for i in 0..encoders.len()
        invariant
            forall|j: int| 0 <= j < i ==> (#[trigger] encoders@[j]).id@ != id@,
    {
        let candidate = chars_of(encoders[i].id.as_str());
        if seq_eq(&candidate, id) {
            proof {
                lemma_first_with_id(encoders@, id@, i as int);
            }
            return Some(i);
        }
    }
    None
}

/// `encoder_selected_label`: what the encoder picker shows for `selected`.
pub open spec fn selected_label_spec(
    selected: Seq<char>,
    encoders: Seq<EncoderCapability>,
    allow_automatic: bool,
) -> Seq<char> {
    if means_automatic(selected) {
        if allow_automatic {
            "Automatic"@
        } else {
            "Choose an encoder"@
        }
    } else {
        match first_with_id(encoders, selected) {
            Some(i) => display_name_spec(encoders[i]),
            None => selected,
        }
    }
}

pub fn encoder_selected_label(
    selected: &str,
    encoders: &Vec<EncoderCapability>,
    allow_automatic: bool,
) -> (r: String)
    ensures
        r@ == selected_label_spec(selected@, encoders@, allow_automatic),
{
    let sel = chars_of(selected);
    let trimmed = trim_vec(&sel);
    if trimmed.len() == 0 || eq_ignore_case_str(&sel, "auto") {
        if allow_automatic {
            string_of(&chars_of("Automatic"))
        } else {
            string_of(&chars_of("Choose an encoder"))
        }
    } else {
        match find_encoder(encoders, &sel) {
            Some(i) => encoder_display_name(&encoders[i]),
            None => string_of(&sel),
        }
    }
}

/// Whether an encoder offers one of `keys`; an encoder that lists no
/// settings accepts them all.
pub open spec fn offers_any(e: EncoderCapability, keys: Seq<&str>) -> bool {
    e.settings@.len() == 0 || exists|k: int, s: int|
        0 <= k < keys.len() && 0 <= s < e.settings@.len() && (#[trigger] e.settings@[s]).key@
            == (#[trigger] keys[k])@
}

/// `encoder_supports_property`: some encoder the selection may stand for
/// (every encoder when automatic, else those with that id) offers a key.
pub open spec fn supports_property_spec(
    encoders: Seq<EncoderCapability>,
    selected: Seq<char>,
    keys: Seq<&str>,
) -> bool {
    let sel = trim(selected);
    exists|i: int|
        0 <= i < encoders.len() && (means_automatic(sel) || (#[trigger] encoders[i]).id@ == sel)
            && offers_any(encoders[i], keys)
}

/// `encoder_setting_capability`: for a chosen (not automatic) encoder, its
/// setting for the first of `keys` it has, in the order of `keys`.
pub open spec fn first_key_with_setting(e: EncoderCapability, keys: Seq<&str>) -> Option<(int, int)> {
    if exists|k: int, s: int|
        0 <= k < keys.len() && 0 <= s < e.settings@.len() && (#[trigger] e.settings@[s]).key@
            == (#[trigger] keys[k])@ {
        Some(
            choose|k: int, s: int|
                0 <= k < keys.len() && 0 <= s < e.settings@.len() && (#[trigger] e.settings@[s]).key@
                    == (#[trigger] keys[k])@ && (forall|kk: int, ss: int|
                    0 <= kk < k && 0 <= ss < e.settings@.len() ==> (#[trigger] e.settings@[ss]).key@
                        != (#[trigger] keys[kk])@) && (forall|ss: int|
                    0 <= ss < s ==> (#[trigger] e.settings@[ss]).key@ != keys[k]@),
        )
    } else {
        None
    }
}

proof fn lemma_first_key(e: EncoderCapability, keys: Seq<&str>, k: int, s: int)
    requires
        0 <= k < keys.len(),
        0 <= s < e.settings@.len(),
        e.settings@[s].key@ == keys[k]@,
        forall|kk: int, ss: int|
            0 <= kk < k && 0 <= ss < e.settings@.len() ==> (#[trigger] e.settings@[ss]).key@
                != (#[trigger] keys[kk])@,
        forall|ss: int| 0 <= ss < s ==> (#[trigger] e.settings@[ss]).key@ != keys[k]@,
    ensures
        first_key_with_setting(e, keys) == Some((k, s)),
{
    let c = choose|ck: int, cs: int|
        0 <= ck < keys.len() && 0 <= cs < e.settings@.len() && (#[trigger] e.settings@[cs]).key@
            == (#[trigger] keys[ck])@ && (forall|kk: int, ss: int|
            0 <= kk < ck && 0 <= ss < e.settings@.len() ==> (#[trigger] e.settings@[ss]).key@
                != (#[trigger] keys[kk])@) && (forall|ss: int|
            0 <= ss < cs ==> (#[trigger] e.settings@[ss]).key@ != keys[ck]@);
    assert(e.settings@[s].key@ == keys[k]@);
    let (ck, cs) = c;
    assert(0 <= ck < keys.len() && 0 <= cs < e.settings@.len() && e.settings@[cs].key@ == keys[ck]@);
    if ck < k {
        assert(e.settings@[cs].key@ != keys[ck]@);
    } else if ck > k {
        assert(e.settings@[s].key@ != keys[k]@);
    } else if cs < s {
        assert(e.settings@[cs].key@ != keys[k]@);
    } else if cs > s {
        assert(e.settings@[s].key@ != keys[ck]@);
    }
}

fn setting_index(e: &EncoderCapability, keys: &[&str]) -> (r: Option<(usize, usize)>)
    ensures
        match r {
            Some((k, s)) => k < keys@.len() && s < e.settings@.len() && e.settings@[s as int].key@
                == keys@[k as int]@ && first_key_with_setting(*e, keys@) == Some((k as int, s as int)),
            None => forall|k: int, s: int|
                0 <= k < keys@.len() && 0 <= s < e.settings@.len() ==> (#[trigger] e.settings@[s]).key@
                    != (#[trigger] keys@[k])@,
        },
{
    for k in 0..keys.len()
        invariant
            forall|kk: int, s: int|
                0 <= kk < k && 0 <= s < e.settings@.len() ==> (#[trigger] e.settings@[s]).key@
                    != (#[trigger] keys@[kk])@,
    {
        let want = chars_of(keys[k]);
        for s in 0..e.settings.len()
            invariant
                want@ == keys@[k as int]@,
                k < keys@.len(),
                forall|kk: int, ss: int|
                    0 <= kk < k && 0 <= ss < e.settings@.len() ==> (#[trigger] e.settings@[ss]).key@
                        != (#[trigger] keys@[kk])@,
                forall|ss: int| 0 <= ss < s ==> (#[trigger] e.settings@[ss]).key@ != keys@[k as int]@,
        {
            let have = chars_of(e.settings[s].key.as_str());
            if seq_eq(&have, &want) {
                proof {
                    lemma_first_key(*e, keys@, k as int, s as int);
                }
                return Some((k, s));
            }
        }
    }
    None
}

fn offers_any_exec(e: &EncoderCapability, keys: &[&str]) -> (r: bool)
    ensures
        r == offers_any(*e, keys@),
{
    if e.settings.len() == 0 {
        return true;
    }
    match setting_index(e, keys) {
        Some((k, s)) => {
            assert(e.settings@[s as int].key@ == keys@[k as int]@);
            true
        },
        None => false,
    }
}

pub fn encoder_supports_property(encoders: &Vec<EncoderCapability>, selected: &str, keys: &[&str]) -> (r:
    bool)
    ensures
        r == supports_property_spec(encoders@, selected@, keys@),
{
    let sel = trim_vec(&chars_of(selected));
    let automatic = {
        let t = trim_vec(&sel);
        t.len() == 0 || eq_ignore_case_str(&sel, "auto")
    };
    for i in 0..encoders.len()
        invariant
            sel@ == trim(selected@),
            automatic == means_automatic(sel@),
            forall|j: int|
                0 <= j < i ==> !((means_automatic(sel@) || (#[trigger] encoders@[j]).id@ == sel@)
                    && offers_any(encoders@[j], keys@)),
    {
        let candidate = automatic || {
            let id = chars_of(encoders[i].id.as_str());
            seq_eq(&id, &sel)
        };
        if candidate && offers_any_exec(&encoders[i], keys) {
            return true;
        }
    }
    false
}

/// `encoder_setting_capability`: nothing when the selection is automatic;
/// otherwise, of the first encoder with the selected id, its setting for
/// the first of `keys` that it has.
pub open spec fn setting_capability_spec(
    encoders: Seq<EncoderCapability>,
    selected: Seq<char>,
    keys: Seq<&str>,
) -> Option<EncoderSettingCapability> {
    let sel = trim(selected);
    if means_automatic(sel) {
        None
    } else {
        match first_with_id(encoders, sel) {
            Some(i) => match first_key_with_setting(encoders[i], keys) {
                Some((k, s)) => Some(encoders[i].settings@[s]),
                None => None,
            },
            None => None,
        }
    }
}

pub fn encoder_setting_capability<'a>(
    encoders: &'a Vec<EncoderCapability>,
    selected: &str,
    keys: &[&str],
) -> (r: Option<&'a EncoderSettingCapability>)
    ensures
        match setting_capability_spec(encoders@, selected@, keys@) {
            Some(s) => r == Some(&s),
            None => r is None,
        },
{
    let sel = trim_vec(&chars_of(selected));
    let t = trim_vec(&sel);
    if t.len() == 0 || eq_ignore_case_str(&sel, "auto") {
        return None;
    }
    match find_encoder(encoders, &sel) {
        Some(i) => {
            let e = &encoders[i];
            match setting_index(e, keys) {
                Some((_k, s)) => Some(&e.settings[s]),
                None => {
                    assert(!(exists|k: int, s: int|
                        0 <= k < keys@.len() && 0 <= s < e.settings@.len() && (#[trigger] e.settings@[s]).key@
                            == (#[trigger] keys@[k])@));
                    None
                },
            }
        },
        None => None,
    }
}

/// The rate-control modes of the recorder's video encoder.
#[derive(Clone, Copy, Debug, PartialEq, Eq, Structural)]
pub enum RateControl {
    Cbr,
    Cqp,
    Vbr,
    Cqvbr,
}

/// A row of the advanced encoder settings.
#[derive(Clone, Copy, Debug, PartialEq, Eq, Structural)]
pub enum SettingRow {
    VideoEncoder,
    /// The rate-control choice.
    RateControl,
    /// In place of the choice: "Managed by the active encoder".
    RateControlManaged,
    /// Constant QP.
    TargetQuality,
    Bitrate,
    MaxBitrate,
    KeyframeInterval,
    Preset,
    Tuning,
    Multipass,
    Profile,
    Lookahead,
    AdaptiveQuantization,
    BFrames,
    BFrameRefMode,
    SplitEncode,
    Gpu,
    Rescale,
    Container,
    CustomOptions,
}

/// The setting keys under which an encoder reports each row's property.
pub open spec fn row_keys(row: SettingRow) -> Seq<&'static str> {
    match row {
        SettingRow::RateControl => seq!["rate_control", "rc"],
        SettingRow::TargetQuality => seq!["target_quality", "cqp", "cq", "qp", "crf"],
        SettingRow::Bitrate => seq!["bitrate", "bitrate_kbps"],
        SettingRow::MaxBitrate => seq!["max_bitrate", "max_bitrate_kbps"],
        SettingRow::KeyframeInterval => seq!["keyint_sec", "keyframe_interval", "keyframe_interval_sec"],
        SettingRow::Preset => seq!["preset", "preset2"],
        SettingRow::Tuning => seq!["tune", "tuning"],
        SettingRow::Multipass => seq!["multipass", "multi_pass"],
        SettingRow::Profile => seq!["profile"],
        SettingRow::Lookahead => seq!["lookahead", "rc-lookahead", "look_ahead"],
        SettingRow::AdaptiveQuantization => seq!["adaptive_quantization", "spatial-aq", "spatial_aq"],
        SettingRow::BFrames => seq!["bframes", "bf", "b_frames"],
        SettingRow::BFrameRefMode => seq!["bf_ref_mode", "b_ref_mode", "bframe_ref_mode"],
        SettingRow::SplitEncode => seq!["split_encode", "split-encode"],
        SettingRow::Gpu => seq!["gpu", "device"],
        SettingRow::Rescale => seq!["rescale"],
        _ => Seq::<&'static str>::empty(),
    }
}

/// Whether the rate-control mode uses a row: the constant QP under CQP and
/// CQVBR, the target bitrate under all but CQP, the maximum bitrate under
/// VBR and CQVBR; the other rows do not depend on it.
pub open spec fn mode_uses(rc: RateControl, row: SettingRow) -> bool {
    match row {
        SettingRow::TargetQuality => rc == RateControl::Cqp || rc == RateControl::Cqvbr,
        SettingRow::Bitrate => rc != RateControl::Cqp,
        SettingRow::MaxBitrate => rc == RateControl::Vbr || rc == RateControl::Cqvbr,
        _ => true,
    }
}

/// The optional rows, in the order they are laid out.
pub open spec fn optional_rows() -> Seq<SettingRow> {
    seq![
        SettingRow::TargetQuality, SettingRow::Bitrate, SettingRow::MaxBitrate,
        SettingRow::KeyframeInterval, SettingRow::Preset, SettingRow::Tuning,
        SettingRow::Multipass, SettingRow::Profile, SettingRow::Lookahead,
        SettingRow::AdaptiveQuantization, SettingRow::BFrames, SettingRow::BFrameRefMode,
        SettingRow::SplitEncode, SettingRow::Gpu, SettingRow::Rescale,
    ]
}

/// The optional rows of `rows` that the mode uses and the selected encoder
/// reports, in order.
pub open spec fn shown_rows(
    encoders: Seq<EncoderCapability>,
    selected: Seq<char>,
    rc: RateControl,
    rows: Seq<SettingRow>,
) -> Seq<SettingRow>
    decreases rows.len(),
{
    if rows.len() == 0 {
        Seq::<SettingRow>::empty()
    } else {
        let before = shown_rows(encoders, selected, rc, rows.drop_last());
        let row = rows.last();
        if mode_uses(rc, row) && supports_property_spec(encoders, selected, row_keys(row)) {
            before.push(row)
        } else {
            before
        }
    }
}

/// The rows of the advanced encoder settings: the encoder, its rate control
/// (a choice when the encoder reports the property, else a note that the
/// encoder manages it), the optional rows the mode uses and the encoder
/// reports, then the container and the custom options.
pub open spec fn visible_rows_spec(
    encoders: Seq<EncoderCapability>,
    selected: Seq<char>,
    rc: RateControl,
) -> Seq<SettingRow> {
    seq![
        SettingRow::VideoEncoder,
        if supports_property_spec(encoders, selected, row_keys(SettingRow::RateControl)) {
            SettingRow::RateControl
        } else {
            SettingRow::RateControlManaged
        },
    ] + shown_rows(encoders, selected, rc, optional_rows()) + seq![
        SettingRow::Container,
        SettingRow::CustomOptions,
    ]
}

/// The keys of a row with a reported property, as a slice.
fn keys_of(row: SettingRow) -> (r: &'static [&'static str])
    requires
        row_keys(row).len() > 0,
    ensures
        r@ == row_keys(row),
{
    match row {
        SettingRow::RateControl => {
            let keys: &'static [&'static str] = &["rate_control", "rc"];
            assert(keys@ =~= row_keys(row));
            keys
        },
        SettingRow::TargetQuality => {
            let keys: &'static [&'static str] = &["target_quality", "cqp", "cq", "qp", "crf"];
            assert(keys@ =~= row_keys(row));
            keys
        },
        SettingRow::Bitrate => {
            let keys: &'static [&'static str] = &["bitrate", "bitrate_kbps"];
            assert(keys@ =~= row_keys(row));
            keys
        },
        SettingRow::MaxBitrate => {
            let keys: &'static [&'static str] = &["max_bitrate", "max_bitrate_kbps"];
            assert(keys@ =~= row_keys(row));
            keys
        },
        SettingRow::KeyframeInterval => {
            let keys: &'static [&'static str] = &["keyint_sec", "keyframe_interval", "keyframe_interval_sec"];
            assert(keys@ =~= row_keys(row));
            keys
        },
        SettingRow::Preset => {
            let keys: &'static [&'static str] = &["preset", "preset2"];
            assert(keys@ =~= row_keys(row));
            keys
        },
        SettingRow::Tuning => {
            let keys: &'static [&'static str] = &["tune", "tuning"];
            assert(keys@ =~= row_keys(row));
            keys
        },
        SettingRow::Multipass => {
            let keys: &'static [&'static str] = &["multipass", "multi_pass"];
            assert(keys@ =~= row_keys(row));
            keys
        },
        SettingRow::Profile => {
            let keys: &'static [&'static str] = &["profile"];
            assert(keys@ =~= row_keys(row));
            keys
        },
        SettingRow::Lookahead => {
            let keys: &'static [&'static str] = &["lookahead", "rc-lookahead", "look_ahead"];
            assert(keys@ =~= row_keys(row));
            keys
        },
        SettingRow::AdaptiveQuantization => {
            let keys: &'static [&'static str] = &["adaptive_quantization", "spatial-aq", "spatial_aq"];
            assert(keys@ =~= row_keys(row));
            keys
        },
        SettingRow::BFrames => {
            let keys: &'static [&'static str] = &["bframes", "bf", "b_frames"];
            assert(keys@ =~= row_keys(row));
            keys
        },
        SettingRow::BFrameRefMode => {
            let keys: &'static [&'static str] = &["bf_ref_mode", "b_ref_mode", "bframe_ref_mode"];
            assert(keys@ =~= row_keys(row));
            keys
        },
        SettingRow::SplitEncode => {
            let keys: &'static [&'static str] = &["split_encode", "split-encode"];
            assert(keys@ =~= row_keys(row));
            keys
        },
        SettingRow::Gpu => {
            let keys: &'static [&'static str] = &["gpu", "device"];
            assert(keys@ =~= row_keys(row));
            keys
        },
        SettingRow::Rescale => {
            let keys: &'static [&'static str] = &["rescale"];
            assert(keys@ =~= row_keys(row));
            keys
        },
        _ => {
            assert(false);
            &[]
        },
    }
}

/// The rows the advanced encoder settings show for the selected encoder
/// and rate-control mode.
pub fn visible_setting_rows(encoders: &Vec<EncoderCapability>, selected: &str, rc: RateControl) -> (r:
    Vec<SettingRow>)
    ensures
        r@ == visible_rows_spec(encoders@, selected@, rc),
{
    let mut rows: Vec<SettingRow> = Vec::new();
    rows.push(SettingRow::VideoEncoder);
    if encoder_supports_property(encoders, selected, keys_of(SettingRow::RateControl)) {
        rows.push(SettingRow::RateControl);
    } else {
        rows.push(SettingRow::RateControlManaged);
    }
    let ghost head = rows@;
    let optional: Vec<SettingRow> = vec![
        SettingRow::TargetQuality, SettingRow::Bitrate, SettingRow::MaxBitrate,
        SettingRow::KeyframeInterval, SettingRow::Preset, SettingRow::Tuning,
        SettingRow::Multipass, SettingRow::Profile, SettingRow::Lookahead,
        SettingRow::AdaptiveQuantization, SettingRow::BFrames, SettingRow::BFrameRefMode,
        SettingRow::SplitEncode, SettingRow::Gpu, SettingRow::Rescale,
    ];
    assert(optional@ =~= optional_rows());
    for i in 0..optional.len()
        invariant
            optional@ == optional_rows(),
            rows@ == head + shown_rows(encoders@, selected@, rc, optional@.subrange(0, i as int)),
    {
        let row = optional[i];
        let ghost prefix = optional@.subrange(0, i as int + 1);
        assert(prefix.drop_last() =~= optional@.subrange(0, i as int));
        assert(prefix.last() == row);
        let uses = match row {
            SettingRow::TargetQuality => rc == RateControl::Cqp || rc == RateControl::Cqvbr,
            SettingRow::Bitrate => rc != RateControl::Cqp,
            SettingRow::MaxBitrate => rc == RateControl::Vbr || rc == RateControl::Cqvbr,
            _ => true,
        };
        if uses && encoder_supports_property(encoders, selected, keys_of(row)) {
            rows.push(row);
        }
        assert(rows@ =~= head + shown_rows(encoders@, selected@, rc, prefix));
    }
    assert(optional@.subrange(0, optional@.len() as int) =~= optional@);
    rows.push(SettingRow::Container);
    rows.push(SettingRow::CustomOptions);
    assert(rows@ =~= visible_rows_spec(encoders@, selected@, rc));
    rows
}

/// Every optional row shown is one the mode uses and the encoder reports.
proof fn lemma_shown_rows_qualify(
    encoders: Seq<EncoderCapability>,
    selected: Seq<char>,
    rc: RateControl,
    rows: Seq<SettingRow>,
    row: SettingRow,
)
    requires
        shown_rows(encoders, selected, rc, rows).contains(row),
    ensures
        mode_uses(rc, row),
        supports_property_spec(encoders, selected, row_keys(row)),
    decreases rows.len(),
{
    if rows.len() > 0 {
        let before = shown_rows(encoders, selected, rc, rows.drop_last());
        if before.contains(row) {
            lemma_shown_rows_qualify(encoders, selected, rc, rows.drop_last(), row);
        } else {
            let k = choose|k: int|
                0 <= k < shown_rows(encoders, selected, rc, rows).len() && shown_rows(
                    encoders,
                    selected,
                    rc,
                    rows,
                )[k] == row;
            if k < before.len() {
                assert(before[k] == row);
            }
        }
    }
}

/// The advanced encoder settings always begin with the encoder and its
/// rate control and end with the container and the custom options; the
/// constant QP appears only under CQP or CQVBR, the maximum bitrate only
/// under VBR or CQVBR, the target bitrate never under CQP, and no optional
/// row appears unless the selected encoder reports its property.
pub proof fn lemma_rows_follow_mode(
    encoders: Seq<EncoderCapability>,
    selected: Seq<char>,
    rc: RateControl,
    row: SettingRow,
)
    ensures
        ({
            let rows = visible_rows_spec(encoders, selected, rc);
            &&& rows.len() >= 4
            &&& rows[0] == SettingRow::VideoEncoder
            &&& (rows[1] == SettingRow::RateControl || rows[1] == SettingRow::RateControlManaged)
            &&& rows[rows.len() - 2] == SettingRow::Container
            &&& rows[rows.len() - 1] == SettingRow::CustomOptions
            &&& (rows.contains(SettingRow::TargetQuality) ==> rc == RateControl::Cqp || rc
                == RateControl::Cqvbr)
            &&& (rows.contains(SettingRow::MaxBitrate) ==> rc == RateControl::Vbr || rc
                == RateControl::Cqvbr)
            &&& (rows.contains(SettingRow::Bitrate) ==> rc != RateControl::Cqp)
            &&& (optional_rows().contains(row) && rows.contains(row) ==> supports_property_spec(
                encoders,
                selected,
                row_keys(row),
            ))
        }),
{
    let shown = shown_rows(encoders, selected, rc, optional_rows());
    let rows = visible_rows_spec(encoders, selected, rc);
    let head = seq![
        SettingRow::VideoEncoder,
        if supports_property_spec(encoders, selected, row_keys(SettingRow::RateControl)) {
            SettingRow::RateControl
        } else {
            SettingRow::RateControlManaged
        },
    ];
    let tail = seq![SettingRow::Container, SettingRow::CustomOptions];
    assert(rows == head + shown + tail);
    assert forall|x: SettingRow| optional_rows().contains(x) && rows.contains(x) implies
        mode_uses(rc, x) && supports_property_spec(encoders, selected, row_keys(x)) by {
        let k = choose|k: int| 0 <= k < rows.len() && rows[k] == x;
        assert(optional_rows()[0] != SettingRow::VideoEncoder);
        if 2 <= k < 2 + shown.len() {
            assert(shown[k - 2] == x);
            lemma_shown_rows_qualify(encoders, selected, rc, optional_rows(), x);
        } else {
            let j = choose|j: int| 0 <= j < optional_rows().len() && optional_rows()[j] == x;
            assert(rows[k] == x);
        }
    }
    assert(optional_rows()[0] == SettingRow::TargetQuality);
    assert(optional_rows()[1] == SettingRow::Bitrate);
    assert(optional_rows()[2] == SettingRow::MaxBitrate);
}

} // verus!
