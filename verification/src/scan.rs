//! Splitting kernel text sources into lines and whitespace-separated
//! tokens, with a mathematical model of both splits.
//!
//! A source is a byte sequence.  Lines are the segments between newline
//! bytes; tokens are the maximal runs of non-whitespace bytes of a line.

use vstd::prelude::*;

verus! {

/// ASCII whitespace: space, tab, line feed, vertical tab, form feed,
/// carriage return.
pub open spec fn is_space(b: u8) -> bool {
    b == 32 || (9 <= b <= 13)
}

/// The newline byte that separates lines.
pub open spec fn is_newline(b: u8) -> bool {
    b == 10
}

/// State of the line split after reading `s`: the complete lines, and
/// the partial line after the last newline.
pub open spec fn line_split_state(s: Seq<u8>) -> (Seq<Seq<u8>>, Seq<u8>)
    decreases s.len(),
{
    if s.len() == 0 {
        (seq![], seq![])
    } else {
        let prev = line_split_state(s.drop_last());
        if is_newline(s.last()) {
            (prev.0.push(prev.1), seq![])
        } else {
            (prev.0, prev.1.push(s.last()))
        }
    }
}

/// The lines of a source: the segments between newline bytes.  A source
/// without a newline is one line; the segment after the last newline is
/// a line too, even when empty.
pub open spec fn lines_of(s: Seq<u8>) -> Seq<Seq<u8>> {
    let st = line_split_state(s);
    st.0.push(st.1)
}

/// State of the token split after reading `s`: the complete tokens, and
/// the partial token after the last whitespace byte.
pub open spec fn token_split_state(s: Seq<u8>) -> (Seq<Seq<u8>>, Seq<u8>)
    decreases s.len(),
{
    if s.len() == 0 {
        (seq![], seq![])
    } else {
        let prev = token_split_state(s.drop_last());
        if is_space(s.last()) {
            if prev.1.len() == 0 {
                (prev.0, seq![])
            } else {
                (prev.0.push(prev.1), seq![])
            }
        } else {
            (prev.0, prev.1.push(s.last()))
        }
    }
}

/// The whitespace-separated tokens of `s`: its maximal runs of
/// non-whitespace bytes, in order.
pub open spec fn tokens_of(s: Seq<u8>) -> Seq<Seq<u8>> {
    let st = token_split_state(s);
    if st.1.len() == 0 {
        st.0
    } else {
        st.0.push(st.1)
    }
}

/// The byte sequences held by a vector of byte vectors.
pub open spec fn views_of(ts: Seq<Vec<u8>>) -> Seq<Seq<u8>> {
    ts.map_values(|t: Vec<u8>| t@)
}

/// Splits a source into its lines.
pub fn split_lines(s: &[u8]) -> (r: Vec<Vec<u8>>)
    ensures
        views_of(r@) == lines_of(s@),
{
    let mut done: Vec<Vec<u8>> = Vec::new();
    let mut cur: Vec<u8> = Vec::new();
    let mut i: usize = 0;
    proof {
        assert(s@.take(0) =~= Seq::<u8>::empty());
        assert(views_of(done@) =~= line_split_state(s@.take(0)).0);
    }
    while i < s.len()
        invariant
            i <= s.len(),
            views_of(done@) == line_split_state(s@.take(i as int)).0,
            cur@ == line_split_state(s@.take(i as int)).1,
        decreases s.len() - i,
    {
        let b = s[i];
        proof {
            assert(s@.take(i as int + 1).drop_last() =~= s@.take(i as int));
            assert(s@.take(i as int + 1).last() == b);
        }
        if b == 10 {
            let ghost old_done = done@;
            let ghost old_cur = cur@;
            done.push(cur);
            cur = Vec::new();
            proof {
                assert(views_of(done@) =~= views_of(old_done).push(old_cur));
            }
        } else {
            cur.push(b);
        }
        i += 1;
    }
    proof {
        assert(s@.take(s@.len() as int) =~= s@);
    }
    let ghost old_done = done@;
    let ghost old_cur = cur@;
    done.push(cur);
    proof {
        assert(views_of(done@) =~= views_of(old_done).push(old_cur));
    }
    done
}

/// Splits a line into its whitespace-separated tokens.
pub fn split_tokens(s: &[u8]) -> (r: Vec<Vec<u8>>)
    ensures
        views_of(r@) == tokens_of(s@),
{
    let mut done: Vec<Vec<u8>> = Vec::new();
    let mut cur: Vec<u8> = Vec::new();
    let mut i: usize = 0;
    proof {
        assert(s@.take(0) =~= Seq::<u8>::empty());
        assert(views_of(done@) =~= token_split_state(s@.take(0)).0);
    }
    while i < s.len()
        invariant
            i <= s.len(),
            views_of(done@) == token_split_state(s@.take(i as int)).0,
            cur@ == token_split_state(s@.take(i as int)).1,
        decreases s.len() - i,
    {
        let b = s[i];
        proof {
            assert(s@.take(i as int + 1).drop_last() =~= s@.take(i as int));
            assert(s@.take(i as int + 1).last() == b);
        }
        if b == 32 || (9 <= b && b <= 13) {
            if cur.len() > 0 {
                let ghost old_done = done@;
                let ghost old_cur = cur@;
                done.push(cur);
                cur = Vec::new();
                proof {
                    assert(views_of(done@) =~= views_of(old_done).push(old_cur));
                }
            }
        } else {
            cur.push(b);
        }
        i += 1;
    }
    proof {
        assert(s@.take(s@.len() as int) =~= s@);
    }
    if cur.len() > 0 {
        let ghost old_done = done@;
        let ghost old_cur = cur@;
        done.push(cur);
        proof {
            assert(views_of(done@) =~= views_of(old_done).push(old_cur));
        }
    }
    done
}

/// Compares two byte slices for equality of their contents.
pub fn bytes_eq(a: &[u8], b: &[u8]) -> (r: bool)
    ensures
        r == (a@ == b@),
{
    if a.len() != b.len() {
        return false;
    }
    let mut i: usize = 0;
    while i < a.len()
        invariant
            i <= a.len(),
            a@.len() == b@.len(),
            forall|j: int| 0 <= j < i ==> a@[j] == b@[j],
        decreases a.len() - i,
    {
        if a[i] != b[i] {
            return false;
        }
        i += 1;
    }
    proof {
        assert(a@ =~= b@);
    }
    true
}

} // verus!
