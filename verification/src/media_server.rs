//! The local media server's logic: request routing, byte ranges, query
//! values, response heads and the FFmpeg pipelines for compatible playback.
//! Sockets, files and child processes stay with the desktop shell.

use vstd::prelude::*;
use vstd::string::{StrSliceExecFns, StringExecFns};
use crate::text::{
    chars_of, contains_char, decimal, extend_signed, join, join_vec, push_string, push_strs,
    signed_decimal, string_views, eq_ignore_case, extend, extend_decimal, eq_ignore_case_str, eq_str, extend_str, split_crlf,
    split_crlf_vec, string_of, strip_prefix_vec, trim, trim_vec, words, words_vec, find_from, has_prefix, lemma_find, lemma_find_at,
    lemma_split_first, find, lower_ascii, lower_ascii_vec, parse_i64, parse_i64_vec, parse_u64,
    parse_u64_vec, seq_eq, split, split_once, split_once_vec, split_vec, strip_prefix_str,
    subvec, views, all_digits, has_infix, is_digit, lemma_decimal_reads_back, lemma_parse_decimal,
};
use crate::paths::{extension, extension_vec, last_dot};
use crate::ids::{new_v4_text, uuid_parses, uuid_text, v4_text};
use crate::media::{mix_pad, mix_pads};

verus! {

/// Largest request head the server reads.
pub const MAX_REQUEST_BYTES: usize = 16384;

pub open spec fn min_u64(a: u64, b: u64) -> u64 {
    if a < b {
        a
    } else {
        b
    }
}

/// `parse_range`: the inclusive byte span a `Range` header asks for in a
/// file of `length` bytes: `bytes=a-b`, `bytes=a-` or the suffix form
/// `bytes=-n`; lists, malformed or unsatisfiable ranges give `None`.
pub open spec fn parse_range_spec(value: Seq<char>, length: u64) -> Option<(u64, u64)> {
    if !has_prefix(value, "bytes="@) {
        None
    } else {
        let v = value.skip("bytes="@.len() as int);
        if v.contains(',') {
            None
        } else {
            match split_once(v, '-') {
                None => None,
                Some((start, end)) => if start.len() == 0 {
                    match parse_u64(end) {
                        None => None,
                        Some(n) => {
                            let suffix = min_u64(n, length);
                            if suffix > 0 {
                                Some(((length - suffix) as u64, (length - 1) as u64))
                            } else {
                                None
                            }
                        },
                    }
                } else {
                    match parse_u64(start) {
                        None => None,
                        Some(s) => if s >= length {
                            None
                        } else {
                            let e = if end.len() == 0 {
                                Some((length - 1) as u64)
                            } else {
                                match parse_u64(end) {
                                    Some(e) => Some(min_u64(e, (length - 1) as u64)),
                                    None => None,
                                }
                            };
                            match e {
                                None => None,
                                Some(e) => if e >= s {
                                    Some((s, e))
                                } else {
                                    None
                                },
                            }
                        },
                    }
                },
            }
        }
    }
}

pub fn parse_range(value: &str, length: u64) -> (r: Option<(u64, u64)>)
    ensures
        r == parse_range_spec(value@, length),
        r matches Some((s, e)) ==> s <= e < length,
{
    let vv = chars_of(value);
    let v = match strip_prefix_str(&vv, "bytes=") {
        Some(v) => v,
        None => return None,
    };
    if contains_char(&v, ',') {
        return None;
    }
    let (start, end) = match split_once_vec(&v, '-') {
        Some(p) => p,
        None => return None,
    };
    if start.len() == 0 {
        let n = match parse_u64_vec(&end) {
            Some(n) => n,
            None => return None,
        };
        let suffix = if n < length {
            n
        } else {
            length
        };
        return if suffix > 0 {
            Some((length - suffix, length - 1))
        } else {
            None
        };
    }
    let s = match parse_u64_vec(&start) {
        Some(s) => s,
        None => return None,
    };
    if s >= length {
        return None;
    }
    let e = if end.len() == 0 {
        length - 1
    } else {
        match parse_u64_vec(&end) {
            Some(e) => if e < length - 1 {
                e
            } else {
                length - 1
            },
            None => return None,
        }
    };
    if e >= s {
        Some((s, e))
    } else {
        None
    }
}

/// A range body `digits-tail` splits at its dash into the digits and the
/// tail, and holds no comma.
proof fn lemma_range_body(start: nat, tail: Seq<char>)
    requires
        all_digits(tail),
    ensures
        split_once(decimal(start) + seq!['-'] + tail, '-') == Some((decimal(start), tail)),
        !(decimal(start) + seq!['-'] + tail).contains(','),
{
    lemma_decimal_reads_back(start);
    let d = decimal(start);
    let body = d + seq!['-'] + tail;
    assert forall|j: int| 0 <= j < body.len() && j != d.len() implies is_digit(#[trigger] body[j]) by {
        if j < d.len() {
            assert(body[j] == d[j]);
        } else {
            assert(body[j] == tail[j - d.len() - 1]);
        }
    }
    assert(body[d.len() as int] == '-');
    lemma_find_at(body, '-', d.len() as int);
    assert(body.take(d.len() as int) =~= d);
    assert(body.skip(d.len() as int + 1) =~= tail);
    if body.contains(',') {
        let j = choose|j: int| 0 <= j < body.len() && body[j] == ',';
        assert(is_digit(body[j]) || body[j] == '-');
    }
}

/// The header text after `bytes=`.
proof fn lemma_bytes_prefix(body: Seq<char>)
    ensures
        has_prefix("bytes="@ + body, "bytes="@),
        ("bytes="@ + body).skip("bytes="@.len() as int) == body,
{
    reveal_strlit("bytes=");
    assert(("bytes="@ + body).take("bytes="@.len() as int) =~= "bytes="@);
    assert(("bytes="@ + body).skip("bytes="@.len() as int) =~= body);
}

/// A range open at its end, `bytes=s-`, runs from byte `s` exactly as
/// written to the last byte of the file, for every start inside the file.
pub proof fn lemma_open_range_starts_where_asked(start: u64, length: u64)
    requires
        start < length,
    ensures
        parse_range_spec("bytes="@ + decimal(start as nat) + "-"@, length) == Some(
            (start, (length - 1) as u64),
        ),
{
    reveal_strlit("-");
    let body = decimal(start as nat) + seq!['-'] + Seq::<char>::empty();
    assert(decimal(start as nat) + "-"@ =~= body);
    assert("bytes="@ + decimal(start as nat) + "-"@ =~= "bytes="@ + body);
    lemma_bytes_prefix(body);
    lemma_range_body(start as nat, Seq::<char>::empty());
    lemma_parse_decimal(start);
}

/// A closed range `bytes=s-e` inside the file runs from byte `s` to byte
/// `e`, cut at the last byte of the file, both exactly as written.
pub proof fn lemma_closed_range_is_as_written(start: u64, end: u64, length: u64)
    requires
        start < length,
        start <= end,
    ensures
        parse_range_spec("bytes="@ + decimal(start as nat) + "-"@ + decimal(end as nat), length)
            == Some((start, if end < length { end } else { (length - 1) as u64 })),
{
    reveal_strlit("-");
    lemma_decimal_reads_back(end as nat);
    let body = decimal(start as nat) + seq!['-'] + decimal(end as nat);
    assert(decimal(start as nat) + "-"@ + decimal(end as nat) =~= body);
    assert("bytes="@ + decimal(start as nat) + "-"@ + decimal(end as nat) =~= "bytes="@ + body);
    lemma_bytes_prefix(body);
    lemma_range_body(start as nat, decimal(end as nat));
    lemma_parse_decimal(start);
    lemma_parse_decimal(end);
}

/// A suffix range `bytes=-n` covers the last `n` bytes of the file, or the
/// whole file when it is shorter.
pub proof fn lemma_suffix_range_is_the_tail(n: u64, length: u64)
    requires
        0 < n,
        0 < length,
    ensures
        parse_range_spec("bytes=-"@ + decimal(n as nat), length) == Some(
            (if n < length { (length - n) as u64 } else { 0 }, (length - 1) as u64),
        ),
{
    reveal_strlit("bytes=-");
    reveal_strlit("bytes=");
    lemma_decimal_reads_back(n as nat);
    let body = seq!['-'] + decimal(n as nat);
    assert("bytes=-"@ + decimal(n as nat) =~= "bytes="@ + body);
    lemma_bytes_prefix(body);
    assert forall|j: int| 0 < j < body.len() implies is_digit(#[trigger] body[j]) by {
        assert(body[j] == decimal(n as nat)[j - 1]);
    }
    lemma_find_at(body, '-', 0);
    assert(body.take(0) =~= Seq::<char>::empty());
    assert(body.skip(1) =~= decimal(n as nat));
    if body.contains(',') {
        let j = choose|j: int| 0 <= j < body.len() && body[j] == ',';
        assert(j == 0 || is_digit(body[j]));
    }
    lemma_parse_decimal(n);
}

/// A range that starts at or past the end of the file cannot be served.
pub proof fn lemma_range_past_end_refused(start: u64, end: Option<u64>, length: u64)
    requires
        start >= length,
    ensures
        parse_range_spec(
            "bytes="@ + decimal(start as nat) + "-"@ + match end {
                Some(e) => decimal(e as nat),
                None => Seq::<char>::empty(),
            },
            length,
        ) is None,
{
    reveal_strlit("-");
    let tail = match end {
        Some(e) => decimal(e as nat),
        None => Seq::<char>::empty(),
    };
    if let Some(e) = end {
        lemma_decimal_reads_back(e as nat);
    }
    let body = decimal(start as nat) + seq!['-'] + tail;
    assert(decimal(start as nat) + "-"@ + tail =~= body);
    assert("bytes="@ + decimal(start as nat) + "-"@ + tail =~= "bytes="@ + body);
    lemma_bytes_prefix(body);
    lemma_range_body(start as nat, tail);
    lemma_parse_decimal(start);
}

/// Only single `bytes=` ranges are served: any other unit, and any list of
/// ranges, is refused.
pub proof fn lemma_range_lists_and_units_refused(value: Seq<char>, length: u64)
    requires
        !has_prefix(value, "bytes="@) || value.contains(','),
    ensures
        parse_range_spec(value, length) is None,
{
    reveal_strlit("bytes=");
    if has_prefix(value, "bytes="@) {
        let j = choose|j: int| 0 <= j < value.len() && value[j] == ',';
        if j < 6 {
            assert(value.take(6)[j] == "bytes="@[j]);
        } else {
            assert(value.skip(6)[j - 6] == ',');
        }
    }
}

/// The value of `key=value` in one `&`-separated pair, if the name matches.
pub open spec fn pair_value(pair: Seq<char>, key: Seq<char>) -> Option<Seq<char>> {
    match split_once(pair, '=') {
        Some((name, value)) => if name == key {
            Some(value)
        } else {
            None
        },
        None => None,
    }
}

/// The value of the first pair whose name is `key`.
pub open spec fn first_value(pairs: Seq<Seq<char>>, key: Seq<char>) -> Option<Seq<char>>
    decreases pairs.len(),
{
    if pairs.len() == 0 {
        None
    } else {
        match pair_value(pairs[0], key) {
            Some(v) => Some(v),
            None => first_value(pairs.drop_first(), key),
        }
    }
}

/// `query_value`: the value of `key` in a URL query string.
pub open spec fn query_value_spec(query: Seq<char>, key: Seq<char>) -> Option<Seq<char>> {
    first_value(split(query, '&'), key)
}

pub fn query_value<'a>(query: &'a str, key: &str) -> (r: Option<&'a str>)
    ensures
        match r {
            Some(v) => query_value_spec(query@, key@) == Some(v@),
            None => query_value_spec(query@, key@) is None,
        },
{
    let q = chars_of(query);
    let k = chars_of(key);
    let mut start: usize = 0;
    assert(q@.skip(0) =~= q@);
    loop
        invariant
            start <= q.len(),
            q@ == query@,
            k@ == key@,
            query_value_spec(query@, key@) == first_value(split(q@.skip(start as int), '&'), k@),
        decreases q.len() - start,
    {
        let ghost rest = q@.skip(start as int);
        proof {
            lemma_split_first(rest, '&');
            lemma_find(rest, '&');
        }
        let end = match find_from(&q, '&', start) {
            Some(e) => e,
            None => q.len(),
        };
        proof {
            if end < q.len() {
                lemma_find_at(rest, '&', end - start);
            } else {
                lemma_find_at(rest, '&', -1);
            }
        }
        let piece = subvec(&q, start, end);
        let ghost pieces = split(rest, '&');
        assert(pieces[0] =~= piece@) by {
            if end < q.len() {
                assert(rest.take(end - start) =~= piece@);
            } else {
                assert(rest =~= piece@);
            }
        }
        match split_once_vec(&piece, '=') {
            Some((name, _)) => {
                if seq_eq(&name, &k) {
                    let eq = name.len();
                    proof {
                        lemma_find(piece@, '=');
                    }
                    let v = query.substring_char(start + eq + 1, end);
                    assert(v@ =~= piece@.skip(eq + 1));
                    return Some(v);
                }
            },
            None => {},
        }
        assert(pair_value(piece@, k@) is None);
        if end == q.len() {
            assert(pieces.drop_first().len() == 0);
            assert(first_value(pieces.drop_first(), k@) is None);
            assert(first_value(pieces, k@) is None);
            return None;
        }
        assert(pieces.drop_first() =~= split(q@.skip(end + 1), '&')) by {
            assert(rest.skip(end - start + 1) =~= q@.skip(end + 1));
        }
        start = end + 1;
    }
}

/// `source_content_type`: the MIME type served for a source recording,
/// chosen by its extension in any letter case.
pub open spec fn content_type_for(ext: Seq<char>) -> Seq<char> {
    let e = lower_ascii(ext);
    if e == "mp4"@ || e == "m4v"@ {
        "video/mp4"@
    } else if e == "mov"@ {
        "video/quicktime"@
    } else if e == "webm"@ {
        "video/webm"@
    } else if e == "mkv"@ {
        "video/x-matroska"@
    } else if e == "avi"@ {
        "video/x-msvideo"@
    } else {
        "application/octet-stream"@
    }
}

pub open spec fn source_content_type_spec(path: Seq<char>) -> Seq<char> {
    match extension(path) {
        Some(e) => content_type_for(e),
        None => content_type_for(Seq::<char>::empty()),
    }
}

pub fn source_content_type(path: &str) -> (r: &'static str)
    ensures
        r@ == source_content_type_spec(path@),
{
    let pv = chars_of(path);
    let ext = match extension_vec(&pv) {
        Some(e) => e,
        None => Vec::new(),
    };
    let e = lower_ascii_vec(&ext);
    if eq_str(&e, "mp4") || eq_str(&e, "m4v") {
        "video/mp4"
    } else if eq_str(&e, "mov") {
        "video/quicktime"
    } else if eq_str(&e, "webm") {
        "video/webm"
    } else if eq_str(&e, "mkv") {
        "video/x-matroska"
    } else if eq_str(&e, "avi") {
        "video/x-msvideo"
    } else {
        "application/octet-stream"
    }
}

/// The audio streams a playback request selects: the `audio` query value
/// as comma-separated integers, keeping those the clip has, in request
/// order.
pub open spec fn requested_indexes(pieces: Seq<Seq<char>>) -> Seq<i64>
    decreases pieces.len(),
{
    if pieces.len() == 0 {
        Seq::<i64>::empty()
    } else {
        let rest = requested_indexes(pieces.drop_last());
        match parse_i64(pieces.last()) {
            Some(n) => rest.push(n),
            None => rest,
        }
    }
}

pub open spec fn keep_known(requested: Seq<i64>, known: Seq<i64>) -> Seq<i64>
    decreases requested.len(),
{
    if requested.len() == 0 {
        Seq::<i64>::empty()
    } else {
        let rest = keep_known(requested.drop_last(), known);
        if known.contains(requested.last()) {
            rest.push(requested.last())
        } else {
            rest
        }
    }
}

pub open spec fn selected_audio_streams_spec(track_indexes: Seq<i64>, query: Seq<char>) -> Seq<i64> {
    let requested = match query_value_spec(query, "audio"@) {
        Some(v) => requested_indexes(split(v, ',')),
        None => Seq::<i64>::empty(),
    };
    keep_known(requested, track_indexes)
}

/// A pair that is not named `audio` has no `audio` value.
proof fn lemma_other_pair(p: Seq<char>)
    requires
        !has_prefix(p, "audio="@),
    ensures
        pair_value(p, "audio"@) is None,
{
    reveal_strlit("audio");
    reveal_strlit("audio=");
    lemma_find(p, '=');
    let k = find(p, '=');
    if k >= 0 && p.take(k) == "audio"@ {
        assert(p.take(k).len() == 5);
        assert(p[5] == '=');
        assert forall|j: int| 0 <= j < 6 implies p.take(6)[j] == "audio="@[j] by {
            if j < 5 {
                assert(p.take(5)[j] == "audio"@[j]);
            }
        }
        assert(p.take(6) =~= "audio="@);
    }
}

/// In `p&rest`, a first pair `p` not named `audio` is passed over.
proof fn lemma_skip_first_pair(p: Seq<char>, rest: Seq<char>)
    requires
        !p.contains('&'),
        !has_prefix(p, "audio="@),
    ensures
        query_value_spec(p + "&"@ + rest, "audio"@) == query_value_spec(rest, "audio"@),
{
    reveal_strlit("&");
    let q = p + "&"@ + rest;
    assert forall|j: int| 0 <= j < q.len() && j < p.len() implies q[j] != '&' by {
        assert(q[j] == p[j]);
    }
    assert(q[p.len() as int] == '&');
    lemma_find_at(q, '&', p.len() as int);
    lemma_split_first(q, '&');
    assert(q.take(p.len() as int) =~= p);
    assert(q.skip(p.len() as int + 1) =~= rest);
    let pairs = split(q, '&');
    assert(pairs == seq![p] + split(rest, '&'));
    lemma_other_pair(p);
    assert(pairs[0] == p);
    assert(pairs.drop_first() =~= split(rest, '&'));
}

/// A query that is one `audio` pair yields its value.
proof fn lemma_audio_only(v: Seq<char>)
    requires
        !v.contains('&'),
    ensures
        query_value_spec("audio="@ + v, "audio"@) == Some(v),
{
    reveal_strlit("audio=");
    reveal_strlit("audio");
    let q = "audio="@ + v;
    assert forall|j: int| 0 <= j < q.len() implies q[j] != '&' by {
        if j >= 6 {
            assert(q[j] == v[j - 6]);
        }
    }
    lemma_find_at(q, '&', -1);
    lemma_split_first(q, '&');
    assert(split(q, '&') == seq![q]);
    assert forall|j: int| 0 <= j < q.len() && j < 5 implies q[j] != '=' by {}
    lemma_find_at(q, '=', 5);
    assert(q.take(5) =~= "audio"@);
    assert(q.skip(6) =~= v);
    assert(seq![q].drop_first() =~= Seq::<Seq<char>>::empty());
}

/// A run of digits holds no comma and no ampersand.
proof fn lemma_decimal_plain(n: nat)
    ensures
        !decimal(n).contains(','),
        !decimal(n).contains('&'),
        find(decimal(n), ',') == -1,
{
    lemma_decimal_reads_back(n);
    let d = decimal(n);
    assert forall|j: int| 0 <= j < d.len() implies d[j] != ',' && d[j] != '&' by {
        assert(is_digit(d[j]));
    }
    lemma_find_at(d, ',', -1);
}

/// Where the `audio` pair stands in the query does not matter: a pair
/// before it that is not itself named `audio` (the player sends `start`
/// first) leaves the selected streams as they are.
pub proof fn lemma_audio_pair_anywhere(tracks: Seq<i64>, p: Seq<char>, rest: Seq<char>)
    requires
        !p.contains('&'),
        !has_prefix(p, "audio="@),
    ensures
        selected_audio_streams_spec(tracks, p + "&"@ + rest) == selected_audio_streams_spec(
            tracks,
            rest,
        ),
{
    lemma_skip_first_pair(p, rest);
}

/// Asking for one stream plays that stream when the clip has it, and
/// nothing otherwise.
pub proof fn lemma_one_requested_stream(tracks: Seq<i64>, n: u64)
    requires
        n <= i64::MAX,
    ensures
        selected_audio_streams_spec(tracks, "audio="@ + decimal(n as nat)) == (if tracks.contains(
            n as i64,
        ) {
            seq![n as i64]
        } else {
            Seq::<i64>::empty()
        }),
{
    let v = decimal(n as nat);
    lemma_decimal_plain(n as nat);
    lemma_audio_only(v);
    lemma_split_first(v, ',');
    lemma_parse_decimal(n);
    let pieces = split(v, ',');
    assert(pieces == seq![v]);
    assert(pieces.drop_last() =~= Seq::<Seq<char>>::empty());
    assert(requested_indexes(Seq::<Seq<char>>::empty()) =~= Seq::<i64>::empty());
    assert(pieces.last() == v);
    let req = requested_indexes(pieces);
    assert(req =~= seq![n as i64]);
    assert(req.drop_last() =~= Seq::<i64>::empty());
    assert(req.last() == n as i64);
    assert(keep_known(Seq::<i64>::empty(), tracks) =~= Seq::<i64>::empty());
}

/// Asking for two streams plays those of them the clip has, in the order
/// asked.
pub proof fn lemma_two_requested_streams(tracks: Seq<i64>, a: u64, b: u64)
    requires
        a <= i64::MAX,
        b <= i64::MAX,
    ensures
        selected_audio_streams_spec(
            tracks,
            "audio="@ + decimal(a as nat) + ","@ + decimal(b as nat),
        ) == (if tracks.contains(a as i64) {
            seq![a as i64]
        } else {
            Seq::<i64>::empty()
        }) + (if tracks.contains(b as i64) {
            seq![b as i64]
        } else {
            Seq::<i64>::empty()
        }),
{
    reveal_strlit(",");
    let da = decimal(a as nat);
    let db = decimal(b as nat);
    let v = da + ","@ + db;
    lemma_decimal_plain(a as nat);
    lemma_decimal_plain(b as nat);
    assert(!v.contains('&')) by {
        if v.contains('&') {
            let j = choose|j: int| 0 <= j < v.len() && v[j] == '&';
            if j < da.len() {
                assert(da[j] == '&');
            } else if j > da.len() {
                assert(db[j - da.len() - 1] == '&');
            }
        }
    }
    assert("audio="@ + da + ","@ + db =~= "audio="@ + v);
    lemma_audio_only(v);
    assert forall|j: int| 0 <= j < v.len() && j < da.len() implies v[j] != ',' by {
        assert(v[j] == da[j]);
    }
    lemma_find_at(v, ',', da.len() as int);
    lemma_split_first(v, ',');
    assert(v.take(da.len() as int) =~= da);
    assert(v.skip(da.len() as int + 1) =~= db);
    lemma_split_first(db, ',');
    let pieces = split(v, ',');
    assert(pieces =~= seq![da, db]);
    lemma_parse_decimal(a);
    lemma_parse_decimal(b);
    assert(pieces.drop_last() =~= seq![da]);
    assert(seq![da].drop_last() =~= Seq::<Seq<char>>::empty());
    assert(requested_indexes(Seq::<Seq<char>>::empty()) =~= Seq::<i64>::empty());
    assert(seq![da].last() == da);
    assert(pieces.last() == db);
    let req = requested_indexes(pieces);
    assert(requested_indexes(seq![da]) =~= seq![a as i64]);
    assert(req =~= seq![a as i64, b as i64]);
    assert(req.drop_last() =~= seq![a as i64]);
    assert(seq![a as i64].drop_last() =~= Seq::<i64>::empty());
    assert(keep_known(Seq::<i64>::empty(), tracks) =~= Seq::<i64>::empty());
    assert(seq![a as i64].last() == a as i64);
    assert(req.last() == b as i64);
    let first = keep_known(seq![a as i64], tracks);
    assert(first =~= (if tracks.contains(a as i64) {
        seq![a as i64]
    } else {
        Seq::<i64>::empty()
    }));
}

fn contains_i64(v: &Vec<i64>, x: i64) -> (r: bool)
    ensures
        r == v@.contains(x),
{
    for i in 0..v.len()
        invariant
            forall|j: int| 0 <= j < i ==> v@[j] != x,
    {
        if v[i] == x {
            assert(v@[i as int] == x);
            return true;
        }
    }
    false
}

/// `selected_audio_streams`, given the stream indexes of the clip's tracks.
pub fn selected_audio_streams(track_indexes: &Vec<i64>, query: &str) -> (r: Vec<i64>)
    ensures
        r@ == selected_audio_streams_spec(track_indexes@, query@),
        forall|i: int| 0 <= i < r@.len() ==> track_indexes@.contains(#[trigger] r@[i]),
{
    let mut requested: Vec<i64> = Vec::new();
    let ghost mut pieces_view: Seq<Seq<char>> = Seq::empty();
    match query_value(query, "audio") {
        Some(value) => {
            let vv = chars_of(value);
            let pieces = split_vec(&vv, ',');
            proof {
                pieces_view = views(pieces@);
            }
            for i in 0..pieces.len()
                invariant
                    views(pieces@) == pieces_view,
                    requested@ == requested_indexes(pieces_view.take(i as int)),
            {
                assert(pieces_view.take(i + 1).drop_last() =~= pieces_view.take(i as int));
                assert(pieces_view.take(i + 1).last() == pieces@[i as int]@);
                match parse_i64_vec(&pieces[i]) {
                    Some(n) => requested.push(n),
                    None => {},
                }
            }
            assert(pieces_view.take(pieces.len() as int) =~= pieces_view);
        },
        None => {},
    }
    let ghost req = requested@;
    assert(req == match query_value_spec(query@, "audio"@) {
        Some(v) => requested_indexes(split(v, ',')),
        None => Seq::<i64>::empty(),
    });
    let mut r: Vec<i64> = Vec::new();
    for i in 0..requested.len()
        invariant
            requested@ == req,
            r@ == keep_known(req.take(i as int), track_indexes@),
            forall|j: int| 0 <= j < r@.len() ==> track_indexes@.contains(#[trigger] r@[j]),
    {
        assert(req.take(i + 1).drop_last() =~= req.take(i as int));
        assert(req.take(i + 1).last() == req[i as int]);
        if contains_i64(track_indexes, requested[i]) {
            r.push(requested[i]);
        }
    }
    assert(req.take(requested.len() as int) =~= req);
    r
}

} // verus!

verus! {

// ---------------------------------------------------------------------------
// Request routing
// ---------------------------------------------------------------------------

/// What the server does with a request.
pub enum Route {
    /// Anything but `GET` and `HEAD`: 405.
    MethodNotAllowed,
    /// 404.
    NotFound,
    /// The source recording of clip `id`.
    Source { id: String },
    /// Clip `id` transcoded on the fly for browsers, with the query string.
    Stream { id: String, query: String },
    /// The selected audio of clip `id` mixed on the fly, with the query string.
    Audio { id: String, query: String },
    /// A preview file `name` in the previews folder (an `.mp4` or a `.jpg`).
    File { name: String, mp4: bool },
}

/// A parsed request: its method, where it goes, and its `Range` header.
pub struct Request {
    pub method: String,
    pub route: Route,
    pub range: Option<String>,
}

pub open spec fn first_or_empty(ws: Seq<Seq<char>>, i: int) -> Seq<char> {
    if 0 <= i < ws.len() {
        ws[i]
    } else {
        Seq::<char>::empty()
    }
}

/// The method word of the request line.
pub open spec fn request_method(req: Seq<char>) -> Seq<char> {
    first_or_empty(words(split_crlf(req)[0]), 0)
}

/// The target word of the request line.
pub open spec fn request_target(req: Seq<char>) -> Seq<char> {
    first_or_empty(words(split_crlf(req)[0]), 1)
}

/// The trimmed value of the first header line whose name is `range` in any
/// letter case.
pub open spec fn range_in(lines: Seq<Seq<char>>) -> Option<Seq<char>>
    decreases lines.len(),
{
    if lines.len() == 0 {
        None
    } else {
        match split_once(lines[0], ':') {
            Some((name, value)) => if eq_ignore_case(name, "range"@) {
                Some(trim(value))
            } else {
                range_in(lines.drop_first())
            },
            None => range_in(lines.drop_first()),
        }
    }
}

pub open spec fn range_header(req: Seq<char>) -> Option<Seq<char>> {
    range_in(split_crlf(req).drop_first())
}

/// The target split at its first `?` into path and query.
pub open spec fn target_path(target: Seq<char>) -> Seq<char> {
    match split_once(target, '?') {
        Some((p, _)) => p,
        None => target,
    }
}

pub open spec fn target_query(target: Seq<char>) -> Seq<char> {
    match split_once(target, '?') {
        Some((_, q)) => q,
        None => Seq::<char>::empty(),
    }
}

/// The file name and extension of a preview route, split at the last `.`.
pub open spec fn route_file(route: Seq<char>) -> Option<(Seq<char>, Seq<char>)> {
    let k = last_dot(route);
    if k >= 0 {
        Some((route.take(k), route.skip(k + 1)))
    } else {
        None
    }
}

/// Where a request goes, for a server whose URLs start with `/{token}/`.
pub open spec fn routes_to(r: Route, req: Seq<char>, token: Seq<char>) -> bool {
    let method = request_method(req);
    let target = request_target(req);
    let path = target_path(target);
    let query = target_query(target);
    let prefix = seq!['/'] + token + seq!['/'];
    if !(method == "GET"@ || method == "HEAD"@) {
        r is MethodNotAllowed
    } else if !has_prefix(path, prefix) {
        r is NotFound
    } else {
        let route = path.skip(prefix.len() as int);
        if has_prefix(route, "source/"@) {
            let id = route.skip("source/"@.len() as int);
            if uuid_text(id) {
                r matches Route::Source { id: x } && x@ == id
            } else {
                r is NotFound
            }
        } else if has_prefix(route, "stream/"@) {
            let id = route.skip("stream/"@.len() as int);
            if uuid_text(id) {
                r matches Route::Stream { id: x, query: q } && x@ == id && q@ == query
            } else {
                r is NotFound
            }
        } else if has_prefix(route, "audio/"@) {
            let id = route.skip("audio/"@.len() as int);
            if uuid_text(id) {
                r matches Route::Audio { id: x, query: q } && x@ == id && q@ == query
            } else {
                r is NotFound
            }
        } else if route.contains('/') || route.contains('\\') {
            r is NotFound
        } else {
            match route_file(route) {
                None => r is NotFound,
                Some((id, ext)) => if uuid_text(id) && (ext == "mp4"@ || ext == "jpg"@) {
                    r matches Route::File { name: n, mp4: m } && n@ == route && m == (ext == "mp4"@)
                } else {
                    r is NotFound
                },
            }
        }
    }
}

/// Only `GET` and `HEAD` requests whose path starts with `/{token}/` are
/// routed anywhere; everything else is refused.
pub proof fn lemma_routes_need_token(r: Route, req: Seq<char>, token: Seq<char>)
    requires
        routes_to(r, req, token),
        !(r is MethodNotAllowed),
        !(r is NotFound),
    ensures
        request_method(req) == "GET"@ || request_method(req) == "HEAD"@,
        has_prefix(target_path(request_target(req)), seq!['/'] + token + seq!['/']),
{
}

/// A preview file is only ever named by a single path component: the name
/// holds no `/` or `\`, so it cannot leave the previews folder, and it is
/// a UUID followed by `.mp4` or `.jpg`.
pub proof fn lemma_file_routes_stay_in_folder(r: Route, req: Seq<char>, token: Seq<char>)
    requires
        routes_to(r, req, token),
        r is File,
    ensures
        !r->name@.contains('/'),
        !r->name@.contains('\\'),
        ({
            let k = last_dot(r->name@);
            &&& k >= 0
            &&& uuid_text(r->name@.take(k))
            &&& (r->name@.skip(k + 1) == "mp4"@ || r->name@.skip(k + 1) == "jpg"@)
        }),
{
}

fn range_of_lines(lines: &Vec<Vec<char>>) -> (r: Option<String>)
    requires
        lines.len() >= 1,
    ensures
        match r {
            Some(v) => range_in(views(lines@).drop_first()) == Some(v@),
            None => range_in(views(lines@).drop_first()) is None,
        },
{
    let ghost ls = views(lines@);
    let mut i: usize = 1;
    while i < lines.len()
        invariant
            1 <= i <= lines.len(),
            ls == views(lines@),
            range_in(ls.drop_first()) == range_in(ls.skip(i as int)),
        decreases lines.len() - i,
    {
        let ghost rest = ls.skip(i as int);
        assert(rest[0] == lines@[i as int]@);
        assert(rest.drop_first() =~= ls.skip(i + 1));
        match split_once_vec(&lines[i], ':') {
            Some((name, value)) => {
                if eq_ignore_case_str(&name, "range") {
                    let t = trim_vec(&value);
                    return Some(string_of(&t));
                }
            },
            None => {},
        }
        i = i + 1;
    }
    assert(ls.skip(i as int).len() == 0);
    None
}

fn word_or_empty(ws: &Vec<Vec<char>>, i: usize) -> (r: Vec<char>)
    ensures
        r@ == first_or_empty(views(ws@), i as int),
{
    if i < ws.len() {
        subvec(&ws[i], 0, ws[i].len())
    } else {
        Vec::new()
    }
}

/// `serve`'s decisions: parses the request head and decides where the
/// request goes. Opening files and running FFmpeg stay with the caller.
pub fn route_request(request: &str, token: &str) -> (r: Request)
    ensures
        r.method@ == request_method(request@),
        match r.range {
            Some(v) => range_header(request@) == Some(v@),
            None => range_header(request@) is None,
        },
        routes_to(r.route, request@, token@),
{
    let rv = chars_of(request);
    let lines = split_crlf_vec(&rv);
    let ws = words_vec(&lines[0]);
    assert(views(lines@)[0] == lines@[0]@);
    let method = word_or_empty(&ws, 0);
    let target = word_or_empty(&ws, 1);
    let range = range_of_lines(&lines);
    let route = route_for(&method, &target, token);
    Request { method: string_of(&method), route, range }
}

fn route_for(method: &Vec<char>, target: &Vec<char>, token: &str) -> (r: Route)
    ensures
        ({
            let path = target_path(target@);
            let query = target_query(target@);
            let prefix = seq!['/'] + token@ + seq!['/'];
            if !(method@ == "GET"@ || method@ == "HEAD"@) {
                r is MethodNotAllowed
            } else if !has_prefix(path, prefix) {
                r is NotFound
            } else {
                let route = path.skip(prefix.len() as int);
                if has_prefix(route, "source/"@) {
                    let id = route.skip("source/"@.len() as int);
                    if uuid_text(id) {
                        r matches Route::Source { id: x } && x@ == id
                    } else {
                        r is NotFound
                    }
                } else if has_prefix(route, "stream/"@) {
                    let id = route.skip("stream/"@.len() as int);
                    if uuid_text(id) {
                        r matches Route::Stream { id: x, query: q } && x@ == id && q@ == query
                    } else {
                        r is NotFound
                    }
                } else if has_prefix(route, "audio/"@) {
                    let id = route.skip("audio/"@.len() as int);
                    if uuid_text(id) {
                        r matches Route::Audio { id: x, query: q } && x@ == id && q@ == query
                    } else {
                        r is NotFound
                    }
                } else if route.contains('/') || route.contains('\\') {
                    r is NotFound
                } else {
                    match route_file(route) {
                        None => r is NotFound,
                        Some((id, ext)) => if uuid_text(id) && (ext == "mp4"@ || ext == "jpg"@) {
                            r matches Route::File { name: n, mp4: m } && n@ == route && m == (ext
                                == "mp4"@)
                        } else {
                            r is NotFound
                        },
                    }
                }
            }
        }),
{
    if !(eq_str(method, "GET") || eq_str(method, "HEAD")) {
        return Route::MethodNotAllowed;
    }
    let (path, query) = match split_once_vec(target, '?') {
        Some((p, q)) => (p, q),
        None => (subvec(target, 0, target.len()), Vec::new()),
    };
    assert(path@ =~= target_path(target@));
    assert(query@ =~= target_query(target@));
    let mut prefix: Vec<char> = Vec::new();
    prefix.push('/');
    extend_str(&mut prefix, token);
    prefix.push('/');
    assert(prefix@ =~= seq!['/'] + token@ + seq!['/']);
    let route = match strip_prefix_vec(&path, &prefix) {
        Some(r) => r,
        None => return Route::NotFound,
    };
    if let Some(id) = strip_prefix_str(&route, "source/") {
        let ids = string_of(&id);
        return if uuid_parses(ids.as_str()) {
            Route::Source { id: ids }
        } else {
            Route::NotFound
        };
    }
    if let Some(id) = strip_prefix_str(&route, "stream/") {
        let ids = string_of(&id);
        return if uuid_parses(ids.as_str()) {
            Route::Stream { id: ids, query: string_of(&query) }
        } else {
            Route::NotFound
        };
    }
    if let Some(id) = strip_prefix_str(&route, "audio/") {
        let ids = string_of(&id);
        return if uuid_parses(ids.as_str()) {
            Route::Audio { id: ids, query: string_of(&query) }
        } else {
            Route::NotFound
        };
    }
    if contains_char(&route, '/') || contains_char(&route, '\\') {
        return Route::NotFound;
    }
    match last_dot_index(&route) {
        None => Route::NotFound,
        Some(k) => {
            let id = string_of(&subvec(&route, 0, k));
            let ext = subvec(&route, k + 1, route.len());
            let mp4 = eq_str(&ext, "mp4");
            if uuid_parses(id.as_str()) && (mp4 || eq_str(&ext, "jpg")) {
                Route::File { name: string_of(&route), mp4 }
            } else {
                Route::NotFound
            }
        },
    }
}

fn last_dot_index(v: &Vec<char>) -> (r: Option<usize>)
    ensures
        match r {
            Some(k) => last_dot(v@) == k as int && k < v.len(),
            None => last_dot(v@) < 0,
        },
{
    let mut i = v.len();
    assert(v@.take(i as int) =~= v@);
    while i > 0
        invariant
            i <= v.len(),
            last_dot(v@) == last_dot(v@.take(i as int)),
        decreases i,
    {
        if v[i - 1] == '.' {
            return Some(i - 1);
        }
        assert(v@.take(i as int).drop_last() =~= v@.take(i - 1));
        i = i - 1;
    }
    None
}

} // verus!

verus! {

// ---------------------------------------------------------------------------
// Responses
// ---------------------------------------------------------------------------

pub open spec fn response_tail() -> Seq<char> {
    "Cache-Control: no-store\r\nAccess-Control-Allow-Origin: *\r\nConnection: close\r\n\r\n"@
}

/// `write_empty`: the head of a response without a body.
pub open spec fn empty_head(status: Seq<char>, extra: Seq<char>) -> Seq<char> {
    "HTTP/1.1 "@ + status + "\r\nContent-Length: 0\r\n"@ + extra + response_tail()
}

pub fn empty_response(status: &str, extra: Option<&str>) -> (r: String)
    ensures
        r@ == empty_head(
            status@,
            match extra {
                Some(e) => e@,
                None => Seq::<char>::empty(),
            },
        ),
{
    let mut v = chars_of("HTTP/1.1 ");
    extend_str(&mut v, status);
    extend_str(&mut v, "\r\nContent-Length: 0\r\n");
    match extra {
        Some(e) => extend_str(&mut v, e),
        None => {},
    }
    extend_str(&mut v, "Cache-Control: no-store\r\nAccess-Control-Allow-Origin: *\r\nConnection: close\r\n\r\n");
    string_of(&v)
}

/// How a file request is answered, once the file is open.
pub enum FileReply {
    /// Only a head (an empty or unsatisfiable file).
    Empty { head: String },
    /// A head, then `length` bytes of the file from `start` (for `GET`).
    Content { head: String, start: u64, length: u64 },
}

/// The head of a response that carries a file's bytes.
pub open spec fn content_head(
    status: Seq<char>,
    content_type: Seq<char>,
    length: nat,
    content_range: Seq<char>,
) -> Seq<char> {
    "HTTP/1.1 "@ + status + "\r\nContent-Type: "@ + content_type + "\r\nContent-Length: "@
        + decimal(length) + "\r\nAccept-Ranges: bytes\r\n"@ + content_range + response_tail()
}

/// `serve_file`'s answer for a file of `file_length` bytes, given the
/// `Range` header if any.
pub open spec fn file_reply_ok(
    r: FileReply,
    file_length: u64,
    content_type: Seq<char>,
    range: Option<Seq<char>>,
) -> bool {
    if file_length == 0 {
        r matches FileReply::Empty { head } && head@ == empty_head(
            "404 Not Found"@,
            Seq::<char>::empty(),
        )
    } else {
        match range {
            Some(v) => match parse_range_spec(v, file_length) {
                None => r matches FileReply::Empty { head } && head@ == empty_head(
                    "416 Range Not Satisfiable"@,
                    "Content-Range: bytes */"@ + decimal(file_length as nat) + "\r\n"@,
                ),
                Some((s, e)) => r matches FileReply::Content { head, start, length } && start == s
                    && length == e - s + 1 && head@ == content_head(
                    "206 Partial Content"@,
                    content_type,
                    (e - s + 1) as nat,
                    "Content-Range: bytes "@ + decimal(s as nat) + seq!['-'] + decimal(e as nat)
                        + seq!['/'] + decimal(file_length as nat) + "\r\n"@,
                ),
            },
            None => r matches FileReply::Content { head, start, length } && start == 0 && length
                == file_length && head@ == content_head(
                "200 OK"@,
                content_type,
                file_length as nat,
                Seq::<char>::empty(),
            ),
        }
    }
}

fn content_response(status: &str, content_type: &str, length: u64, range: &Vec<char>) -> (r: String)
    ensures
        r@ == content_head(status@, content_type@, length as nat, range@),
{
    let mut v = chars_of("HTTP/1.1 ");
    extend_str(&mut v, status);
    extend_str(&mut v, "\r\nContent-Type: ");
    extend_str(&mut v, content_type);
    extend_str(&mut v, "\r\nContent-Length: ");
    extend_decimal(&mut v, length as u128);
    extend_str(&mut v, "\r\nAccept-Ranges: bytes\r\n");
    extend(&mut v, range);
    extend_str(&mut v, "Cache-Control: no-store\r\nAccess-Control-Allow-Origin: *\r\nConnection: close\r\n\r\n");
    string_of(&v)
}

/// The decisions of `serve_file` once the file is open: which status, which
/// head, and which bytes follow. The bytes always lie inside the file.
pub fn file_reply(file_length: u64, content_type: &str, range: Option<&str>) -> (r: FileReply)
    ensures
        file_reply_ok(
            r,
            file_length,
            content_type@,
            match range {
                Some(v) => Some(v@),
                None => None,
            },
        ),
        r matches FileReply::Content { start, length, .. } ==> length >= 1 && start + length
            <= file_length,
{
    if file_length == 0 {
        return FileReply::Empty { head: empty_response("404 Not Found", None) };
    }
    match range {
        Some(value) => match parse_range(value, file_length) {
            Some((s, e)) => {
                let mut cr = chars_of("Content-Range: bytes ");
                extend_decimal(&mut cr, s as u128);
                cr.push('-');
                extend_decimal(&mut cr, e as u128);
                cr.push('/');
                extend_decimal(&mut cr, file_length as u128);
                extend_str(&mut cr, "\r\n");
                let ghost a = "Content-Range: bytes "@ + decimal(s as nat);
                let ghost b = (a.push('-') + decimal(e as nat)).push('/') + decimal(file_length as nat);
                assert(cr@ =~= b + "\r\n"@);
                assert(a.push('-') =~= a + seq!['-']);
                assert((a.push('-') + decimal(e as nat)).push('/') =~= a + seq!['-'] + decimal(
                    e as nat,
                ) + seq!['/']);
                let head = content_response("206 Partial Content", content_type, e - s + 1, &cr);
                FileReply::Content { head, start: s, length: e - s + 1 }
            },
            None => {
                let mut extra = chars_of("Content-Range: bytes */");
                extend_decimal(&mut extra, file_length as u128);
                extend_str(&mut extra, "\r\n");
                let extra_text = string_of(&extra);
                FileReply::Empty {
                    head: empty_response("416 Range Not Satisfiable", Some(extra_text.as_str())),
                }
            },
        },
        None => {
            let none: Vec<char> = Vec::new();
            let head = content_response("200 OK", content_type, file_length, &none);
            FileReply::Content { head, start: 0, length: file_length }
        },
    }
}

/// The head of a streamed response of the given content type.
pub open spec fn stream_head(content_type: Seq<char>) -> Seq<char> {
    "HTTP/1.1 200 OK\r\nContent-Type: "@ + content_type + "\r\n"@ + response_tail()
}

/// The head sent before an FFmpeg pipeline's output.
pub fn stream_response(content_type: &str) -> (r: String)
    ensures
        r@ == stream_head(content_type@),
{
    let mut v = chars_of("HTTP/1.1 200 OK\r\nContent-Type: ");
    extend_str(&mut v, content_type);
    extend_str(&mut v, "\r\n");
    extend_str(&mut v, "Cache-Control: no-store\r\nAccess-Control-Allow-Origin: *\r\nConnection: close\r\n\r\n");
    string_of(&v)
}

/// The only address the media server listens on: the loopback interface.
pub const LISTEN_ADDRESS: &'static str = "127.0.0.1";

/// The server's base URL for a listening port and secret token.
pub open spec fn base_url_spec(port: u16, token: Seq<char>) -> Seq<char> {
    "http://127.0.0.1:"@ + decimal(port as nat) + seq!['/'] + token
}

pub fn base_url(port: u16, token: &str) -> (r: String)
    ensures
        r@ == base_url_spec(port, token@),
{
    let mut v = chars_of("http://127.0.0.1:");
    extend_decimal(&mut v, port as u128);
    let ghost a = v@;
    v.push('/');
    extend_str(&mut v, token);
    assert(v@ =~= a + seq!['/'] + token@);
    string_of(&v)
}

/// The media server's identity for a listening port: a fresh random
/// token and the base URL built from it.
pub fn server_identity(port: u16) -> (r: (String, String))
    ensures
        v4_text(r.0@),
        r.1@ == base_url_spec(port, r.0@),
{
    let token = new_v4_text();
    let url = base_url(port, token.as_str());
    (token, url)
}

/// Every URL the server hands out points at the loopback address.
pub proof fn lemma_base_url_is_local(port: u16, token: Seq<char>)
    ensures
        has_prefix(base_url_spec(port, token), "http://"@ + LISTEN_ADDRESS@ + ":"@),
{
    reveal_strlit("http://");
    reveal_strlit("127.0.0.1");
    reveal_strlit(":");
    reveal_strlit("http://127.0.0.1:");
    let p = "http://"@ + LISTEN_ADDRESS@ + ":"@;
    assert(p =~= "http://127.0.0.1:"@);
    assert(base_url_spec(port, token).take(p.len() as int) =~= p);
}

/// Whether a request head read so far is complete: it holds a blank line.
pub open spec fn head_complete(bytes: Seq<u8>) -> bool {
    exists|i: int|
        0 <= i && i + 4 <= bytes.len() && #[trigger] bytes[i] == 13u8 && bytes[i + 1] == 10u8
            && bytes[i + 2] == 13u8 && bytes[i + 3] == 10u8
}

/// `read_request`'s stopping test: some window of four bytes is `\r\n\r\n`.
pub fn request_head_complete(bytes: &Vec<u8>) -> (r: bool)
    ensures
        r == head_complete(bytes@),
{
    if bytes.len() < 4 {
        return false;
    }
    let mut i: usize = 0;
    while i <= bytes.len() - 4
        invariant
            bytes.len() >= 4,
            forall|j: int|
                0 <= j < i && j + 4 <= bytes@.len() ==> !(#[trigger] bytes@[j] == 13u8 && bytes@[j
                    + 1] == 10u8 && bytes@[j + 2] == 13u8 && bytes@[j + 3] == 10u8),
        decreases bytes.len() - i,
    {
        if bytes[i] == 13 && bytes[i + 1] == 10 && bytes[i + 2] == 13 && bytes[i + 3] == 10 {
            return true;
        }
        i = i + 1;
    }
    false
}

} // verus!

verus! {

// ---------------------------------------------------------------------------
// Playback pipelines
// ---------------------------------------------------------------------------

pub open spec fn resample_filter(index: i64, position: nat, rate: Seq<char>) -> Seq<char> {
    "[0:"@ + signed_decimal(index as int) + "]aresample="@ + rate + "[a"@ + decimal(position)
        + "]"@
}

pub open spec fn amix_filter(n: nat) -> Seq<char> {
    mix_pads(n) + "amix=inputs="@ + decimal(n) + ":duration=longest:normalize=1[audio]"@
}

/// The filters of the browser-compatible stream: the video in yuv420p, and
/// the selected audio mixed (several), passed through (one) or absent.
pub open spec fn compat_filters(audio: Seq<i64>) -> Seq<Seq<char>> {
    let video = seq!["[0:v:0]format=yuv420p[video]"@];
    if audio.len() > 1 {
        video + Seq::new(audio.len(), |i: int| resample_filter(audio[i], i as nat, "44100"@))
            + seq![amix_filter(audio.len())]
    } else if audio.len() == 1 {
        video + seq!["[0:"@ + signed_decimal(audio[0] as int) + "]anull[audio]"@]
    } else {
        video
    }
}

pub open spec fn compat_stream_args_spec(start: Seq<char>, source: Seq<char>, audio: Seq<i64>) -> Seq<
    Seq<char>,
> {
    seq![
        "-hide_banner"@, "-loglevel"@, "error"@, "-fflags"@,
        "+nobuffer+flush_packets+discardcorrupt"@, "-avioflags"@, "direct"@,
        "-flush_packets"@, "1"@, "-ss"@, start, "-readrate"@, "1.25"@,
        "-readrate_initial_burst"@, "5"@, "-readrate_catchup"@, "2"@, "-i"@, source,
        "-filter_complex"@, join(compat_filters(audio), ';'), "-map"@, "[video]"@, "-c:v"@,
        "libx264"@, "-preset"@, "ultrafast"@, "-tune"@, "zerolatency"@, "-crf"@, "18"@,
        "-g"@, "1"@,
    ] + (if audio.len() == 0 {
        seq!["-an"@]
    } else {
        seq!["-map"@, "[audio]"@, "-ac"@, "2"@, "-c:a"@, "aac"@, "-b:a"@, "128k"@]
    }) + seq![
        "-fps_mode"@, "passthrough"@, "-f"@, "mp4"@, "-movflags"@,
        "+frag_keyframe+empty_moov+default_base_moof"@, "pipe:1"@,
    ]
}

/// The filters of the preview audio mix: every selected stream resampled,
/// then mixed (several) or passed through.
pub open spec fn mix_filters(audio: Seq<i64>) -> Seq<Seq<char>> {
    Seq::new(
        audio.len(),
        |i: int| resample_filter(audio[i], i as nat, "48000:async=1:first_pts=0"@),
    ) + if audio.len() > 1 {
        seq![amix_filter(audio.len())]
    } else {
        seq![mix_pads(audio.len()) + "anull[audio]"@]
    }
}

pub open spec fn audio_mix_args_spec(start: Seq<char>, source: Seq<char>, audio: Seq<i64>) -> Seq<
    Seq<char>,
> {
    seq![
        "-hide_banner"@, "-loglevel"@, "error"@, "-fflags"@,
        "+nobuffer+flush_packets+discardcorrupt"@, "-ss"@, start, "-readrate"@, "1.25"@,
        "-readrate_initial_burst"@, "3"@, "-readrate_catchup"@, "2"@, "-i"@, source,
        "-filter_complex"@, join(mix_filters(audio), ';'), "-map"@, "[audio]"@, "-vn"@,
        "-ac"@, "2"@, "-ar"@, "48000"@, "-c:a"@, "libmp3lame"@, "-b:a"@, "192k"@, "-f"@,
        "mp3"@, "-write_xing"@, "0"@, "pipe:1"@,
    ]
}

fn pads_vec(n: usize) -> (r: Vec<char>)
    ensures
        r@ == mix_pads(n as nat),
{
    let mut g: Vec<char> = Vec::new();
    for i in 0..n
        invariant
            g@ == mix_pads(i as nat),
    {
        let ghost pre = g@;
        extend_str(&mut g, "[a");
        extend_decimal(&mut g, i as u128);
        extend_str(&mut g, "]");
        assert(g@ =~= pre + mix_pad(i as nat));
    }
    g
}

fn resample_vec(index: i64, position: usize, rate: &str) -> (r: Vec<char>)
    ensures
        r@ == resample_filter(index, position as nat, rate@),
{
    let mut g = chars_of("[0:");
    extend_signed(&mut g, index);
    extend_str(&mut g, "]aresample=");
    extend_str(&mut g, rate);
    extend_str(&mut g, "[a");
    extend_decimal(&mut g, position as u128);
    extend_str(&mut g, "]");
    g
}

fn amix_vec(n: usize) -> (r: Vec<char>)
    ensures
        r@ == amix_filter(n as nat),
{
    let mut g = pads_vec(n);
    extend_str(&mut g, "amix=inputs=");
    extend_decimal(&mut g, n as u128);
    extend_str(&mut g, ":duration=longest:normalize=1[audio]");
    g
}

fn push_piece(v: &mut Vec<Vec<char>>, p: Vec<char>)
    ensures
        views(final(v)@) == views(old(v)@).push(p@),
{
    let ghost before = v@;
    v.push(p);
    assert(views(v@) =~= views(before).push(p@));
}

fn resample_all(filters: &mut Vec<Vec<char>>, audio: &Vec<i64>, rate: &str)
    ensures
        views(final(filters)@) == views(old(filters)@) + Seq::new(
            audio@.len(),
            |i: int| resample_filter(audio@[i], i as nat, rate@),
        ),
{
    let ghost want = Seq::new(audio@.len(), |i: int| resample_filter(audio@[i], i as nat, rate@));
    for i in 0..audio.len()
        invariant
            want == Seq::new(audio@.len(), |i: int| resample_filter(audio@[i], i as nat, rate@)),
            views(filters@) =~= views(old(filters)@) + want.take(i as int),
    {
        push_piece(filters, resample_vec(audio[i], i, rate));
        assert(want.take(i + 1) =~= want.take(i as int).push(want[i as int]));
    }
    assert(want.take(audio.len() as int) =~= want);
}

/// The FFmpeg arguments of `serve_compat_stream`, from `start` seconds
/// (already clamped to the clip and written out) with the selected audio.
pub fn compat_stream_args(start: &str, source: &str, audio: &Vec<i64>) -> (r: Vec<String>)
    ensures
        string_views(r@) == compat_stream_args_spec(start@, source@, audio@),
{
    let mut filters: Vec<Vec<char>> = Vec::new();
    push_piece(&mut filters, chars_of("[0:v:0]format=yuv420p[video]"));
    if audio.len() > 1 {
        resample_all(&mut filters, audio, "44100");
        push_piece(&mut filters, amix_vec(audio.len()));
    } else if audio.len() == 1 {
        let mut g = chars_of("[0:");
        extend_signed(&mut g, audio[0]);
        extend_str(&mut g, "]anull[audio]");
        push_piece(&mut filters, g);
    }
    assert(views(filters@) =~= compat_filters(audio@));
    let graph = join_vec(&filters, ';');
    let mut a: Vec<String> = Vec::new();
    push_strs(
        &mut a,
        &[
            "-hide_banner",
            "-loglevel",
            "error",
            "-fflags",
            "+nobuffer+flush_packets+discardcorrupt",
            "-avioflags",
            "direct",
            "-flush_packets",
            "1",
            "-ss",
        ],
    );
    push_string(&mut a, String::from_str(start));
    push_strs(
        &mut a,
        &["-readrate", "1.25", "-readrate_initial_burst", "5", "-readrate_catchup", "2", "-i"],
    );
    push_string(&mut a, String::from_str(source));
    push_strs(&mut a, &["-filter_complex"]);
    push_string(&mut a, string_of(&graph));
    push_strs(
        &mut a,
        &[
            "-map",
            "[video]",
            "-c:v",
            "libx264",
            "-preset",
            "ultrafast",
            "-tune",
            "zerolatency",
            "-crf",
            "18",
            "-g",
            "1",
        ],
    );
    if audio.len() == 0 {
        push_strs(&mut a, &["-an"]);
    } else {
        push_strs(&mut a, &["-map", "[audio]", "-ac", "2", "-c:a", "aac", "-b:a", "128k"]);
    }
    push_strs(
        &mut a,
        &[
            "-fps_mode",
            "passthrough",
            "-f",
            "mp4",
            "-movflags",
            "+frag_keyframe+empty_moov+default_base_moof",
            "pipe:1",
        ],
    );
    assert(string_views(a@) =~= compat_stream_args_spec(start@, source@, audio@));
    a
}

/// The FFmpeg arguments of `serve_audio_mix`, from `start` seconds with the
/// selected audio.
pub fn audio_mix_args(start: &str, source: &str, audio: &Vec<i64>) -> (r: Vec<String>)
    ensures
        string_views(r@) == audio_mix_args_spec(start@, source@, audio@),
{
    let mut filters: Vec<Vec<char>> = Vec::new();
    resample_all(&mut filters, audio, "48000:async=1:first_pts=0");
    if audio.len() > 1 {
        push_piece(&mut filters, amix_vec(audio.len()));
    } else {
        let mut g = pads_vec(audio.len());
        extend_str(&mut g, "anull[audio]");
        push_piece(&mut filters, g);
    }
    assert(views(filters@) =~= mix_filters(audio@));
    let graph = join_vec(&filters, ';');
    let mut a: Vec<String> = Vec::new();
    push_strs(
        &mut a,
        &["-hide_banner", "-loglevel", "error", "-fflags", "+nobuffer+flush_packets+discardcorrupt", "-ss"],
    );
    push_string(&mut a, String::from_str(start));
    push_strs(
        &mut a,
        &["-readrate", "1.25", "-readrate_initial_burst", "3", "-readrate_catchup", "2", "-i"],
    );
    push_string(&mut a, String::from_str(source));
    push_strs(&mut a, &["-filter_complex"]);
    push_string(&mut a, string_of(&graph));
    push_strs(
        &mut a,
        &[
            "-map",
            "[audio]",
            "-vn",
            "-ac",
            "2",
            "-ar",
            "48000",
            "-c:a",
            "libmp3lame",
            "-b:a",
            "192k",
            "-f",
            "mp3",
            "-write_xing",
            "0",
            "pipe:1",
        ],
    );
    assert(string_views(a@) =~= audio_mix_args_spec(start@, source@, audio@));
    a
}

} // verus!
