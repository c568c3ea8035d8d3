//! Track-name handling: which files of a library directory count as
//! tracks, and the name a track is shown under. Both work on the path's
//! bytes; the caller turns paths into bytes and back.

use vstd::prelude::*;

verus! {

/// The byte value of `/`.
pub const SLASH: u8 = 47;

/// A path that names a track: it ends in `.mp3`.
pub open spec fn spec_is_track_path(s: Seq<u8>) -> bool {
    s.len() >= 4 && s.subrange(s.len() - 4, s.len() as int) == seq![46u8, 109u8, 112u8, 51u8]
}

/// Whether this path names a track file (its name ends in `.mp3`).
pub fn is_track_path(path: &Vec<u8>) -> (r: bool)
    ensures
        r == spec_is_track_path(path@),
{
    let n = path.len();
    if n < 4 {
        return false;
    }
    let r = path[n - 4] == 46 && path[n - 3] == 109 && path[n - 2] == 112 && path[n - 1] == 51;
    proof {
        let tail = path@.subrange(n - 4, n as int);
        assert(tail.len() == 4);
        assert(tail[0] == path@[n - 4] && tail[1] == path@[n - 3] && tail[2] == path@[n - 2]
            && tail[3] == path@[n - 1]);
        if r {
            assert(tail =~= seq![46u8, 109u8, 112u8, 51u8]);
        } else {
            assert(tail != seq![46u8, 109u8, 112u8, 51u8]);
        }
    }
    r
}

/// Where the path's base name starts: just after the last slash.
pub open spec fn base_start(s: Seq<u8>) -> int
    decreases s.len(),
{
    if s.len() == 0 {
        0
    } else if s[s.len() - 1] == SLASH {
        s.len() as int
    } else {
        base_start(s.drop_last())
    }
}

/// A lower-case ASCII letter raised to upper case; anything else kept.
pub open spec fn spec_upper(c: u8) -> u8 {
    if 97 <= c <= 122 {
        (c - 32) as u8
    } else {
        c
    }
}

/// The whole sequence raised to upper case.
pub open spec fn spec_upper_seq(s: Seq<u8>) -> Seq<u8> {
    Seq::new(s.len(), |i: int| spec_upper(s[i]))
}

/// The name a track is shown under: the base name of its path, raised
/// to upper case, without the `.MP3` that the extension becomes.
pub open spec fn spec_display_name(s: Seq<u8>) -> Seq<u8> {
    let base = spec_upper_seq(s.subrange(base_start(s), s.len() as int));
    if base.len() >= 4 && base.subrange(base.len() - 4, base.len() as int)
        == seq![46u8, 77u8, 80u8, 51u8] {
        base.subrange(0, base.len() - 4)
    } else {
        base
    }
}

/// Where the base name starts is a position within the path, and no
/// slash occurs at or after it.
proof fn lemma_base_start_bounds(s: Seq<u8>)
    ensures
        0 <= base_start(s) <= s.len(),
        forall|i: int| base_start(s) <= i < s.len() ==> s[i] != SLASH,
    decreases s.len(),
{
    if s.len() > 0 && s[s.len() - 1] != SLASH {
        lemma_base_start_bounds(s.drop_last());
        assert forall|i: int| base_start(s) <= i < s.len() implies s[i] != SLASH by {
            if i < s.len() - 1 {
                assert(s.drop_last()[i] == s[i]);
            }
        }
    }
}

/// The display name of a track path: everything after the last slash,
/// upper-cased, with a trailing `.MP3` removed.
pub fn display_name(path: &Vec<u8>) -> (r: Vec<u8>)
    ensures
        r@ == spec_display_name(path@),
{
    let n = path.len();
    proof {
        lemma_base_start_bounds(path@);
    }
    // find the start of the base name: one past the last slash
    let mut start: usize = n;
    while start > 0 && path[start - 1] != 47
        invariant
            0 <= start <= n,
            n == path@.len(),
            forall|i: int| start <= i < n ==> path@[i] != SLASH,
            base_start(path@) <= start,
        decreases start,
    {
        proof {
            lemma_base_start_step(path@, start as int - 1);
        }
        start = start - 1;
    }
    proof {
        if start > 0 {
            lemma_base_start_at_slash(path@, start as int);
        }
        assert(start == base_start(path@));
    }
    // upper-case the base name
    let mut base: Vec<u8> = Vec::new();
    let mut j: usize = start;
    while j < n
        invariant
            start <= j <= n,
            n == path@.len(),
            base@.len() == j - start,
            forall|i: int| 0 <= i < base@.len()
                ==> #[trigger] base@[i] == spec_upper(path@[start + i]),
        decreases n - j,
    {
        let c = path[j];
        let u = if c >= 97 && c <= 122 { c - 32 } else { c };
        base.push(u);
        j = j + 1;
    }
    proof {
        let upped = spec_upper_seq(path@.subrange(base_start(path@), n as int));
        assert forall|i: int| 0 <= i < base@.len() implies base@[i] == upped[i] by {
            assert(base@[i] == spec_upper(path@[start + i]));
            assert(upped[i] == spec_upper(path@.subrange(base_start(path@), n as int)[i]));
        }
        assert(base@ =~= upped);
    }
    // strip a trailing ".MP3"
    let m = base.len();
    if m >= 4 && base[m - 4] == 46 && base[m - 3] == 77 && base[m - 2] == 80 && base[m - 1] == 51 {
        let mut stripped: Vec<u8> = Vec::new();
        let mut k: usize = 0;
        while k < m - 4
            invariant
                0 <= k <= m - 4,
                4 <= m == base@.len(),
                stripped@ == base@.subrange(0, k as int),
            decreases m - 4 - k,
        {
            let c = base[k];
            stripped.push(c);
            k = k + 1;
            proof {
                assert(stripped@ =~= base@.subrange(0, k as int));
            }
        }
        proof {
            let tail = base@.subrange(m - 4, m as int);
            assert(tail[0] == base@[m - 4] && tail[1] == base@[m - 3] && tail[2] == base@[m - 2]
                && tail[3] == base@[m - 1]);
            assert(tail =~= seq![46u8, 77u8, 80u8, 51u8]);
        }
        stripped
    } else {
        proof {
            let b = base@;
            if b.len() >= 4 {
                let tail = b.subrange(b.len() - 4, b.len() as int);
                assert(tail[0] == b[b.len() - 4] && tail[1] == b[b.len() - 3]
                    && tail[2] == b[b.len() - 2] && tail[3] == b[b.len() - 1]);
                if tail == seq![46u8, 77u8, 80u8, 51u8] {
                    assert(b[b.len() - 4] == 46 && b[b.len() - 3] == 77 && b[b.len() - 2] == 80
                        && b[b.len() - 1] == 51);
                }
            }
        }
        base
    }
}

/// Stepping left over a non-slash byte keeps the base start at or below.
proof fn lemma_base_start_step(s: Seq<u8>, i: int)
    requires
        0 <= i < s.len(),
        forall|k: int| i <= k < s.len() ==> s[k] != SLASH,
    ensures
        base_start(s) <= i,
    decreases s.len(),
{
    if s.len() > 0 {
        assert(s[s.len() - 1] != SLASH);
        if i < s.len() - 1 {
            assert(forall|k: int| i <= k < s.len() - 1
                ==> #[trigger] s.drop_last()[k] == s[k]);
            lemma_base_start_step(s.drop_last(), i);
        } else {
            lemma_base_start_bounds(s.drop_last());
        }
    }
}

/// A slash just before `start` pins the base start at `start`.
proof fn lemma_base_start_at_slash(s: Seq<u8>, start: int)
    requires
        1 <= start <= s.len(),
        s[start - 1] == SLASH,
        forall|i: int| start <= i < s.len() ==> s[i] != SLASH,
    ensures
        base_start(s) == start,
    decreases s.len(),
{
    if start == s.len() {
    } else {
        assert(s[s.len() - 1] != SLASH);
        assert(forall|k: int| 0 <= k < s.len() - 1 ==> #[trigger] s.drop_last()[k] == s[k]);
        lemma_base_start_at_slash(s.drop_last(), start);
    }
}

} // verus!
