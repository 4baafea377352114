//! Addresses of OSC messages that set a node parameter: `/node/<id>/<param>`.
use vstd::prelude::*;
use crate::types::StableId;
use crate::text::{id_of_text, parse_id_text};
use crate::strmap::chars_of;

verus! {

/// The pieces of a text between its slashes (empty pieces included).
pub open spec fn slash_segments(s: Seq<char>) -> Seq<Seq<char>>
    decreases s.len(),
{
    if s.len() == 0 {
        seq![Seq::<char>::empty()]
    } else {
        let p = slash_segments(s.drop_last());
        if s.last() == '/' {
            p.push(Seq::<char>::empty())
        } else {
            p.update(p.len() - 1, p.last().push(s.last()))
        }
    }
}

/// The piece is not empty.
pub open spec fn non_empty() -> spec_fn(Seq<char>) -> bool {
    |p: Seq<char>| p.len() > 0
}

/// The non-empty pieces of an address.
pub open spec fn address_parts(s: Seq<char>) -> Seq<Seq<char>> {
    slash_segments(s).filter(non_empty())
}

/// The node and the parameter that an address names: three non-empty
/// pieces, the first `node`, the second a node identifier.
pub open spec fn node_address(s: Seq<char>) -> Option<(StableId, Seq<char>)> {
    let ps = address_parts(s);
    if ps.len() == 3 && ps[0] == "node"@ && id_of_text(ps[1]) is Some {
        Some((id_of_text(ps[1]).unwrap(), ps[2]))
    } else {
        None
    }
}

proof fn lemma_segments_nonempty(s: Seq<char>)
    ensures
        slash_segments(s).len() >= 1,
    decreases s.len(),
{
    if s.len() > 0 {
        lemma_segments_nonempty(s.drop_last());
    }
}

/// The node and the parameter that an OSC address names, if it names one.
pub fn parse_node_address(addr: &str) -> (r: Option<(StableId, String)>)
    ensures
        match node_address(addr@) {
            Some((id, p)) => r matches Some((rid, rp)) && rid == id && rp@ == p,
            None => r is None,
        },
{
    let cs = chars_of(addr);
    let ghost keep = non_empty();
    let mut ranges: Vec<(usize, usize)> = Vec::new();
    let mut start: usize = 0;
    let mut i: usize = 0;
    proof {
        assert(cs@.take(0) =~= Seq::<char>::empty());
        assert(cs@.subrange(0, 0) =~= Seq::<char>::empty());
        reveal(Seq::filter);
        assert(seq![Seq::<char>::empty()].drop_last() =~= Seq::<Seq<char>>::empty());
    }
    while i < cs.len()
        invariant
            cs@ == addr@,
            keep == non_empty(),
            start <= i <= cs@.len(),
            slash_segments(cs@.take(i as int)).len() >= 1,
            slash_segments(cs@.take(i as int)).last() == cs@.subrange(start as int, i as int),
            slash_segments(cs@.take(i as int)).drop_last().filter(keep) == ranges@.map_values(
                |r: (usize, usize)| cs@.subrange(r.0 as int, r.1 as int),
            ),
            forall|j: int| 0 <= j < ranges@.len() ==> (#[trigger] ranges@[j]).0 <= ranges@[j].1 <= cs@.len(),
        decreases cs@.len() - i,
    {
        let ghost segs = slash_segments(cs@.take(i as int));
        let ghost before = ranges@;
        proof {
            assert(cs@.take(i + 1).drop_last() =~= cs@.take(i as int));
            assert(cs@.take(i + 1).last() == cs@[i as int]);
            lemma_segments_nonempty(cs@.take(i as int));
        }
        if cs[i] == '/' {
            proof {
                let next = slash_segments(cs@.take(i + 1));
                assert(next == segs.push(Seq::<char>::empty()));
                assert(next.drop_last() =~= segs);
                assert(segs =~= segs.drop_last().push(segs.last()));
                segs.drop_last().lemma_filter_push(segs.last(), keep);
            }
            if i > start {
                ranges.push((start, i));
                proof {
                    assert(ranges@.map_values(|r: (usize, usize)| cs@.subrange(r.0 as int, r.1 as int)) =~= before.map_values(
                        |r: (usize, usize)| cs@.subrange(r.0 as int, r.1 as int),
                    ).push(cs@.subrange(start as int, i as int)));
                }
            } else {
                proof {
                    assert(cs@.subrange(start as int, i as int).len() == 0);
                }
            }
            start = i + 1;
            proof {
                assert(cs@.subrange(start as int, (i + 1) as int) =~= Seq::<char>::empty());
            }
        } else {
            proof {
                let next = slash_segments(cs@.take(i + 1));
                assert(next == segs.update(segs.len() - 1, segs.last().push(cs@[i as int])));
                assert(next.drop_last() =~= segs.drop_last());
                assert(next.last() =~= cs@.subrange(start as int, (i + 1) as int));
            }
        }
        i = i + 1;
    }
    proof {
        assert(cs@.take(cs@.len() as int) =~= cs@);
    }
    let ghost segs = slash_segments(cs@);
    let ghost before = ranges@;
    proof {
        assert(segs =~= segs.drop_last().push(segs.last()));
        segs.drop_last().lemma_filter_push(segs.last(), keep);
    }
    if cs.len() > start {
        ranges.push((start, cs.len()));
        proof {
            assert(ranges@.map_values(|r: (usize, usize)| cs@.subrange(r.0 as int, r.1 as int)) =~= before.map_values(
                |r: (usize, usize)| cs@.subrange(r.0 as int, r.1 as int),
            ).push(cs@.subrange(start as int, cs@.len() as int)));
        }
    }
    let ghost parts = ranges@.map_values(|r: (usize, usize)| cs@.subrange(r.0 as int, r.1 as int));
    assert(parts == address_parts(addr@));
    if ranges.len() != 3 {
        return None;
    }
    let (s0, e0) = ranges[0];
    let (s1, e1) = ranges[1];
    let (s2, e2) = ranges[2];
    let first = addr.substring_char(s0, e0);
    let word = "node";
    proof {
        reveal_strlit("node");
        assert(parts[0] == cs@.subrange(s0 as int, e0 as int));
    }
    let first_owned = first.to_owned();
    let node_owned = word.to_owned();
    if first_owned != node_owned {
        return None;
    }
    let id_part = addr.substring_char(s1, e1);
    proof {
        assert(parts[1] == cs@.subrange(s1 as int, e1 as int));
        assert(parts[2] == cs@.subrange(s2 as int, e2 as int));
    }
    match parse_id_text(id_part) {
        Some(id) => {
            let param = addr.substring_char(s2, e2).to_owned();
            Some((id, param))
        },
        None => None,
    }
}

} // verus!
