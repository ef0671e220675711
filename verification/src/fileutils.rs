//! The compute core of the file substitution: replacing every
//! occurrence of one string with another inside a file's content.  The
//! reading and rewriting of the file itself stays with the caller.

use vstd::prelude::*;

verus! {

/// The content with every non-overlapping occurrence of `from`, found
/// left to right, replaced by `to`.  An empty `from` replaces nothing.
pub open spec fn spec_replace(s: Seq<char>, from: Seq<char>, to: Seq<char>) -> Seq<char>
    decreases s.len(),
{
    if from.len() == 0 {
        s
    } else if s.len() < from.len() {
        s
    } else if s.subrange(0, from.len() as int) == from {
        to + spec_replace(s.skip(from.len() as int), from, to)
    } else {
        seq![s[0]] + spec_replace(s.skip(1), from, to)
    }
}

/// Does `source` occur in `content` at position `i`?
fn matches_at(content: &str, source: &str, i: usize) -> (r: bool)
    requires
        i + source@.len() <= content@.len(),
    ensures
        r == (content@.subrange(i as int, i as int + source@.len() as int) == source@),
{
    let n = content.unicode_len();
    let m = source.unicode_len();
    let mut j: usize = 0;
    while j < m
        invariant
            n == content@.len(),
            m == source@.len(),
            i + m <= n,
            j <= m,
            forall|k: int| 0 <= k < j ==> content@[i + k] == source@[k],
        decreases m - j,
    {
        if content.get_char(i + j) != source.get_char(j) {
            assert(content@.subrange(i as int, i as int + m as int)[j as int]
                != source@[j as int]);
            return false;
        }
        j += 1;
    }
    assert(content@.subrange(i as int, i as int + m as int) =~= source@);
    true
}

/// Substitutes inside a file's content: every occurrence of `source`
/// becomes `target`.  The caller reads the file before and writes the
/// result back after.
pub fn substitute(content: &str, source: &str, target: &str) -> (r: String)
    requires
        source@.len() > 0,
    ensures
        r@ == spec_replace(content@, source@, target@),
{
    let n = content.unicode_len();
    let m = source.unicode_len();
    let mut out = String::new();
    let mut i: usize = 0;
    proof {
        assert(content@.skip(0) =~= content@);
        assert(Seq::<char>::empty() + spec_replace(content@, source@, target@) =~= spec_replace(
            content@,
            source@,
            target@,
        ));
    }
    while i < n
        invariant
            n == content@.len(),
            m == source@.len(),
            m > 0,
            i <= n,
            spec_replace(content@, source@, target@) == out@ + spec_replace(
                content@.skip(i as int),
                source@,
                target@,
            ),
        decreases n - i,
    {
        let ghost rest = content@.skip(i as int);
        if m <= n - i && matches_at(content, source, i) {
            proof {
                assert(rest.subrange(0, m as int) =~= content@.subrange(
                    i as int,
                    i as int + m as int,
                ));
                assert(rest.skip(m as int) =~= content@.skip(i as int + m as int));
            }
            out.append(target);
            proof {
                assert(spec_replace(rest, source@, target@) == target@ + spec_replace(
                    content@.skip(i as int + m as int),
                    source@,
                    target@,
                ));
                assert(out@ + spec_replace(content@.skip(i as int + m as int), source@, target@)
                    =~= spec_replace(content@, source@, target@));
            }
            i += m;
        } else {
            let piece = content.substring_char(i, i + 1);
            proof {
                assert(piece@ =~= seq![content@[i as int]]);
                if m <= n - i {
                    assert(rest.subrange(0, m as int) =~= content@.subrange(
                        i as int,
                        i as int + m as int,
                    ));
                    assert(rest.subrange(0, m as int) != source@);
                    assert(rest[0] == content@[i as int]);
                    assert(rest.skip(1) =~= content@.skip(i as int + 1));
                    assert(spec_replace(rest, source@, target@) == seq![content@[i as int]]
                        + spec_replace(content@.skip(i as int + 1), source@, target@));
                } else {
                    assert(rest.len() < m);
                    assert(spec_replace(rest, source@, target@) == rest);
                    assert(content@.skip(i as int + 1).len() < m);
                    assert(spec_replace(content@.skip(i as int + 1), source@, target@)
                        == content@.skip(i as int + 1));
                    assert(rest =~= seq![content@[i as int]] + content@.skip(i as int + 1));
                }
            }
            out.append(piece);
            proof {
                assert(out@ + spec_replace(content@.skip(i as int + 1), source@, target@)
                    =~= spec_replace(content@, source@, target@));
            }
            i += 1;
        }
    }
    proof {
        assert(content@.skip(n as int) =~= Seq::<char>::empty());
        assert(spec_replace(Seq::<char>::empty(), source@, target@) == Seq::<char>::empty());
        assert(out@ =~= spec_replace(content@, source@, target@));
    }
    out
}

} // verus!
