//! The player's audio selection rules and source classification. The
//! libmpv binding itself stays with the desktop shell.

use vstd::prelude::*;
use vstd::string::StringExecFns;
use crate::text::{
    chars_of, extend_signed, extend_str, extend_decimal, has_prefix, signed_decimal, decimal,
    starts_with_str, string_of, strip_prefix_vec,
};

verus! {

/// `is_remote_media`: the source is an HTTP(S) URL rather than a file.
pub open spec fn is_remote_spec(path: Seq<char>) -> bool {
    has_prefix(path, "http://"@) || has_prefix(path, "https://"@)
}

pub fn is_remote_media(path: &str) -> (r: bool)
    ensures
        r == is_remote_spec(path@),
{
    let p = chars_of(path);
    starts_with_str(&p, "http://") || starts_with_str(&p, "https://")
}

/// The player track for one requested stream: the track with that FFmpeg
/// stream index, else the track at the same position, else none.
pub open spec fn track_for(available: Seq<(i64, i64)>, stream_index: i64, ordinal: int) -> Option<i64> {
    if exists|j: int| 0 <= j < available.len() && (#[trigger] available[j]).0 == stream_index {
        let j = choose|j: int|
            0 <= j < available.len() && (#[trigger] available[j]).0 == stream_index && forall|k: int|
                0 <= k < j ==> (#[trigger] available[k]).0 != stream_index;
        Some(available[j].1)
    } else if 0 <= ordinal < available.len() {
        Some(available[ordinal].1)
    } else {
        None
    }
}

/// The player tracks for the requested streams, in request order.
pub open spec fn raw_mapping(available: Seq<(i64, i64)>, requested: Seq<i64>) -> Seq<i64>
    decreases requested.len(),
{
    if requested.len() == 0 {
        Seq::<i64>::empty()
    } else {
        let rest = raw_mapping(available, requested.drop_last());
        match track_for(available, requested.last(), requested.len() - 1) {
            Some(id) => rest.push(id),
            None => rest,
        }
    }
}

pub open spec fn strictly_increasing(s: Seq<i64>) -> bool {
    forall|i: int, j: int| 0 <= i < j < s.len() ==> s[i] < s[j]
}

/// `map_requested`'s result: the tracks of `raw_mapping`, sorted, each once.
pub open spec fn is_mapping(r: Seq<i64>, available: Seq<(i64, i64)>, requested: Seq<i64>) -> bool {
    &&& strictly_increasing(r)
    &&& forall|x: i64| r.contains(x) <==> raw_mapping(available, requested).contains(x)
}

fn insert_sorted(r: &mut Vec<i64>, x: i64)
    requires
        strictly_increasing(old(r)@),
    ensures
        strictly_increasing(final(r)@),
        forall|y: i64| final(r)@.contains(y) <==> (old(r)@.contains(y) || y == x),
{
    let mut p: usize = 0;
    while p < r.len() && r[p] < x
        invariant
            p <= r.len(),
            forall|k: int| 0 <= k < p ==> r@[k] < x,
        decreases r.len() - p,
    {
        p = p + 1;
    }
    if p < r.len() && r[p] == x {
        assert(r@[p as int] == x);
        assert(r@.contains(x));
        return;
    }
    let ghost before = r@;
    r.insert(p, x);
    assert forall|i: int, j: int| 0 <= i < j < r@.len() implies r@[i] < r@[j] by {
        if j < p {
            assert(r@[i] == before[i] && r@[j] == before[j]);
        } else if j == p {
            assert(r@[i] == before[i]);
        } else if i < p {
            assert(r@[i] == before[i] && r@[j] == before[j - 1]);
            assert(before[p as int] > x);
            assert(before[i] < x);
            if j - 1 > p {
                assert(before[p as int] < before[j - 1]);
            }
        } else if i == p {
            assert(r@[j] == before[j - 1]);
            assert(before[p as int] > x);
            if j - 1 > p {
                assert(before[p as int] < before[j - 1]);
            }
        } else {
            assert(r@[i] == before[i - 1] && r@[j] == before[j - 1]);
        }
    }
    assert forall|y: i64| r@.contains(y) <==> (before.contains(y) || y == x) by {
        if r@.contains(y) {
            let k = choose|k: int| 0 <= k < r@.len() && r@[k] == y;
            if k < p {
                assert(before[k] == y);
            } else if k > p {
                assert(before[k - 1] == y);
            }
        }
        if before.contains(y) {
            let k = choose|k: int| 0 <= k < before.len() && before[k] == y;
            if k < p {
                assert(r@[k] == y);
            } else {
                assert(r@[k + 1] == y);
            }
        }
        if y == x {
            assert(r@[p as int] == x);
        }
    }
}

fn track_for_exec(available: &[(i64, i64)], stream_index: i64, ordinal: usize) -> (r: Option<i64>)
    ensures
        r == track_for(available@, stream_index, ordinal as int),
{
    for j in 0..available.len()
        invariant
            forall|k: int| 0 <= k < j ==> (#[trigger] available@[k]).0 != stream_index,
    {
        if available[j].0 == stream_index {
            let ghost jj = j as int;
            assert(available@[jj].0 == stream_index);
            let ghost c = choose|c: int|
                0 <= c < available@.len() && (#[trigger] available@[c]).0 == stream_index && forall|
                    k: int,
                | 0 <= k < c ==> (#[trigger] available@[k]).0 != stream_index;
            assert(c == jj) by {
                if c < jj {
                    assert(available@[c].0 != stream_index);
                }
                if c > jj {
                    assert(available@[jj].0 != stream_index);
                }
            }
            return Some(available[j].1);
        }
    }
    if ordinal < available.len() {
        Some(available[ordinal].1)
    } else {
        None
    }
}

/// `map_requested`: the player track ids for the requested FFmpeg stream
/// indexes, sorted and without repeats.
pub fn map_requested(available: &[(i64, i64)], requested: &[i64]) -> (r: Vec<i64>)
    ensures
        is_mapping(r@, available@, requested@),
{
    let mut r: Vec<i64> = Vec::new();
    for i in 0..requested.len()
        invariant
            strictly_increasing(r@),
            forall|x: i64| r@.contains(x) <==> raw_mapping(available@, requested@.take(i as int)).contains(x),
    {
        let ghost pre = requested@.take(i as int);
        assert(requested@.take(i + 1).drop_last() =~= pre);
        assert(requested@.take(i + 1).last() == requested@[i as int]);
        let ghost raw_pre = raw_mapping(available@, pre);
        match track_for_exec(available, requested[i], i) {
            Some(id) => {
                insert_sorted(&mut r, id);
                assert forall|x: i64| r@.contains(x) <==> raw_pre.push(id).contains(x) by {
                    if raw_pre.push(id).contains(x) && x != id {
                        let k = choose|k: int| 0 <= k < raw_pre.len() + 1 && raw_pre.push(id)[k] == x;
                        assert(raw_pre[k] == x);
                    }
                    if raw_pre.contains(x) {
                        let k = choose|k: int| 0 <= k < raw_pre.len() && raw_pre[k] == x;
                        assert(raw_pre.push(id)[k] == x);
                    }
                    if x == id {
                        assert(raw_pre.push(id)[raw_pre.len() as int] == id);
                    }
                }
            },
            None => {},
        }
    }
    assert(requested@.take(requested.len() as int) =~= requested@);
    r
}

proof fn lemma_track_for_available(available: Seq<(i64, i64)>, stream_index: i64, ordinal: int)
    ensures
        track_for(available, stream_index, ordinal) matches Some(id) ==> exists|j: int|
            0 <= j < available.len() && (#[trigger] available[j]).1 == id,
{
    if exists|j: int| 0 <= j < available.len() && (#[trigger] available[j]).0 == stream_index {
        let j0 = choose|j: int| 0 <= j < available.len() && (#[trigger] available[j]).0 == stream_index;
        assert(exists|j: int|
            0 <= j < available.len() && (#[trigger] available[j]).0 == stream_index && forall|k: int|
                0 <= k < j ==> (#[trigger] available[k]).0 != stream_index) by {
            lemma_first_match(available, stream_index, j0);
        }
    }
}

proof fn lemma_first_match(available: Seq<(i64, i64)>, stream_index: i64, j0: int)
    requires
        0 <= j0 < available.len(),
        available[j0].0 == stream_index,
    ensures
        exists|j: int|
            0 <= j < available.len() && (#[trigger] available[j]).0 == stream_index && forall|k: int|
                0 <= k < j ==> (#[trigger] available[k]).0 != stream_index,
    decreases j0,
{
    if exists|k: int| 0 <= k < j0 && (#[trigger] available[k]).0 == stream_index {
        let k = choose|k: int| 0 <= k < j0 && (#[trigger] available[k]).0 == stream_index;
        lemma_first_match(available, stream_index, k);
    } else {
        assert(forall|k: int| 0 <= k < j0 ==> (#[trigger] available[k]).0 != stream_index);
    }
}

/// Every track `map_requested` returns belongs to an available audio track.
pub proof fn lemma_mapping_uses_available(available: Seq<(i64, i64)>, requested: Seq<i64>)
    ensures
        forall|x: i64|
            #[trigger] raw_mapping(available, requested).contains(x) ==> exists|j: int|
                0 <= j < available.len() && (#[trigger] available[j]).1 == x,
    decreases requested.len(),
{
    if requested.len() > 0 {
        lemma_mapping_uses_available(available, requested.drop_last());
        lemma_track_for_available(available, requested.last(), requested.len() - 1);
        let rest = raw_mapping(available, requested.drop_last());
        let m = raw_mapping(available, requested);
        assert forall|x: i64| #[trigger] m.contains(x) implies exists|j: int|
            0 <= j < available.len() && (#[trigger] available[j]).1 == x by {
            let k = choose|k: int| 0 <= k < m.len() && m[k] == x;
            if k < rest.len() {
                assert(m[k] == rest[k]);
                assert(rest.contains(x));
            }
        }
    }
}

/// How the player's audio is configured for a mapped selection.
pub enum AudioSetup {
    /// No audio track.
    Off,
    /// One track, played directly.
    Track { id: i64 },
    /// Several tracks mixed by a filter graph; `fallback` plays alone if the
    /// graph is refused.
    Mix { graph: String, fallback: i64 },
}

/// The mix graph for several player tracks.
pub open spec fn aid_inputs(ids: Seq<i64>) -> Seq<char>
    decreases ids.len(),
{
    if ids.len() == 0 {
        Seq::<char>::empty()
    } else {
        aid_inputs(ids.drop_last()) + "[aid"@ + signed_decimal(ids.last() as int) + "]"@
    }
}

pub open spec fn mix_graph_prefix(ids: Seq<i64>) -> Seq<char> {
    aid_inputs(ids) + "amix=inputs="@ + decimal(ids.len())
}

pub open spec fn mix_graph(ids: Seq<i64>) -> Seq<char> {
    mix_graph_prefix(ids) + ":duration=longest:normalize=1[ao]"@
}

fn aid_inputs_vec(ids: &Vec<i64>) -> (r: Vec<char>)
    ensures
        r@ == aid_inputs(ids@),
{
    let mut g: Vec<char> = Vec::new();
    for i in 0..ids.len()
        invariant
            g@ == aid_inputs(ids@.take(i as int)),
    {
        assert(ids@.take(i + 1).drop_last() =~= ids@.take(i as int));
        let ghost pre = g@;
        extend_str(&mut g, "[aid");
        extend_signed(&mut g, ids[i]);
        extend_str(&mut g, "]");
        assert(g@ =~= pre + "[aid"@ + signed_decimal(ids@[i as int] as int) + "]"@);
    }
    assert(ids@.take(ids.len() as int) =~= ids@);
    g
}

fn mix_graph_prefix_vec(ids: &Vec<i64>) -> (r: Vec<char>)
    ensures
        r@ == mix_graph_prefix(ids@),
{
    let mut g = aid_inputs_vec(ids);
    extend_str(&mut g, "amix=inputs=");
    extend_decimal(&mut g, ids.len() as u128);
    g
}

/// How the player's audio is set up for the mapped tracks.
pub fn audio_setup(mapped: &Vec<i64>) -> (r: AudioSetup)
    ensures
        mapped@.len() == 0 ==> r is Off,
        mapped@.len() == 1 ==> (r matches AudioSetup::Track { id } && id == mapped@[0]),
        mapped@.len() > 1 ==> (r matches AudioSetup::Mix { graph, fallback } && graph@ == mix_graph(
            mapped@,
        ) && fallback == mapped@[0]),
{
    if mapped.len() == 0 {
        AudioSetup::Off
    } else if mapped.len() == 1 {
        AudioSetup::Track { id: mapped[0] }
    } else {
        let mut g = mix_graph_prefix_vec(mapped);
        extend_str(&mut g, ":duration=longest:normalize=1[ao]");
        AudioSetup::Mix { graph: string_of(&g), fallback: mapped[0] }
    }
}

/// `audio_already_matches`: whether the player's current `lavfi-complex`
/// graph and `aid` already give the mapped selection.
pub open spec fn audio_matches_spec(
    mapped: Seq<i64>,
    lavfi: Seq<char>,
    aid_text: Option<Seq<char>>,
    aid_number: Option<i64>,
) -> bool {
    if mapped.len() == 0 {
        lavfi.len() == 0 && aid_text == Some("no"@)
    } else if mapped.len() == 1 {
        lavfi.len() == 0 && aid_number == Some(mapped[0])
    } else {
        has_prefix(lavfi, mix_graph_prefix(mapped))
    }
}

pub fn audio_already_matches(
    mapped: &Vec<i64>,
    lavfi: &str,
    aid_text: Option<&str>,
    aid_number: Option<i64>,
) -> (r: bool)
    ensures
        r == audio_matches_spec(
            mapped@,
            lavfi@,
            match aid_text {
                Some(t) => Some(t@),
                None => None,
            },
            aid_number,
        ),
{
    let l = chars_of(lavfi);
    if mapped.len() == 0 {
        l.len() == 0 && match aid_text {
            Some(t) => crate::text::eq_str(&chars_of(t), "no"),
            None => false,
        }
    } else if mapped.len() == 1 {
        l.len() == 0 && match aid_number {
            Some(n) => n == mapped[0],
            None => false,
        }
    } else {
        let p = mix_graph_prefix_vec(mapped);
        strip_prefix_vec(&l, &p).is_some()
    }
}


/// Audio set up as `audio_setup` plans it is recognised by
/// `audio_already_matches`: no track is `aid=no` with no graph, one track is
/// its id with no graph, several tracks are their mix graph.
pub proof fn lemma_applied_audio_matches(mapped: Seq<i64>)
    ensures
        mapped.len() == 0 ==> audio_matches_spec(mapped, Seq::<char>::empty(), Some("no"@), None),
        mapped.len() == 1 ==> audio_matches_spec(mapped, Seq::<char>::empty(), None, Some(mapped[0])),
        mapped.len() > 1 ==> audio_matches_spec(mapped, mix_graph(mapped), None, None),
{
    if mapped.len() > 1 {
        let p = mix_graph_prefix(mapped);
        assert(mix_graph(mapped).take(p.len() as int) =~= p);
    }
}

} // verus!
