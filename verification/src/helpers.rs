//! Path normalization and small shared helpers.
//!
//! Every path that enters the engine is normalized first: separator runs
//! collapse to a single forward slash and a trailing slash is dropped, so
//! that the same file always maps to the same hash-index key and the same
//! sync path.

use vstd::prelude::*;

use crate::strings::is_prefix_of;
use crate::strings::push_char;

verus! {

/// Both separator styles that may appear in an incoming path.
pub open spec fn is_sep(c: char) -> bool {
    c == '/' || c == '\\'
}

/// The collapsed form of `s` from position `i` on; `prev_sep` says whether
/// the character emitted just before position `i` was a separator.
pub open spec fn collapse_from(s: Seq<char>, i: int, prev_sep: bool) -> Seq<char>
    decreases s.len() - i,
{
    if i < 0 || i >= s.len() {
        Seq::empty()
    } else if is_sep(s[i]) {
        if prev_sep {
            collapse_from(s, i + 1, true)
        } else {
            seq!['/'].add(collapse_from(s, i + 1, true))
        }
    } else {
        seq![s[i]].add(collapse_from(s, i + 1, false))
    }
}

/// `s` with every run of separators replaced by one forward slash.
pub open spec fn collapse_seps(s: Seq<char>) -> Seq<char> {
    collapse_from(s, 0, false)
}

/// The normalized form of a path: separator runs collapsed, and no trailing
/// slash unless the path is the bare root.
pub open spec fn norm_path(s: Seq<char>) -> Seq<char> {
    let c = collapse_seps(s);
    if c.len() > 1 && c.last() == '/' {
        c.drop_last()
    } else {
        c
    }
}

/// Normalizes a path string.
pub fn normalize_path(p: &String) -> (r: String)
    ensures
        r@ == norm_path(p@),
{
    let n = p.as_str().unicode_len();
    let mut out = String::new();
    let mut prev_sep = false;
    let mut i: usize = 0;
    while i < n
        invariant
            0 <= i <= n,
            n == p@.len(),
            out@.add(collapse_from(p@, i as int, prev_sep)) == collapse_seps(p@),
        decreases n - i,
    {
        let c = p.as_str().get_char(i);
        let ghost out0 = out@;
        let ghost prev0 = prev_sep;
        if c == '/' || c == '\\' {
            if !prev_sep {
                push_char(&mut out, '/');
            }
            prev_sep = true;
        } else {
            push_char(&mut out, c);
            prev_sep = false;
        }
        i += 1;
        proof {
            assert(out@.add(collapse_from(p@, i as int, prev_sep)) =~= out0.add(
                collapse_from(p@, i - 1, prev0),
            ));
        }
    }
    proof {
        assert(out@.add(collapse_from(p@, i as int, prev_sep)) =~= out@);
    }
    let m = out.as_str().unicode_len();
    if m > 1 {
        if out.as_str().get_char(m - 1) == '/' {
            let r = out.as_str().substring_char(0, m - 1).to_owned();
            proof {
                assert(r@ =~= norm_path(p@));
            }
            return r;
        }
    }
    out
}

/// `s` without its leading run of separators.
pub open spec fn drop_leading_seps(s: Seq<char>) -> Seq<char>
    decreases s.len(),
{
    if s.len() == 0 {
        Seq::empty()
    } else if is_sep(s[0]) {
        drop_leading_seps(s.skip(1))
    } else {
        s
    }
}

proof fn lemma_drop_leading_seps_at(s: Seq<char>, j: int)
    requires
        0 <= j <= s.len(),
        forall|k: int| 0 <= k < j ==> is_sep(s[k]),
        j < s.len() ==> !is_sep(s[j]),
    ensures
        drop_leading_seps(s) == s.skip(j),
    decreases j,
{
    if j == 0 {
        assert(s.skip(0) =~= s);
    } else {
        assert(is_sep(s[0]));
        assert(forall|k: int| 0 <= k < j - 1 ==> is_sep(s.skip(1)[k]));
        if j < s.len() {
            assert(s.skip(1)[j - 1] == s[j]);
        }
        lemma_drop_leading_seps_at(s.skip(1), j - 1);
        assert(s.skip(1).skip(j - 1) =~= s.skip(j));
    }
}

/// The sync path of `p` relative to the base `b`: the normalized remainder
/// after the normalized base, without a leading slash.
pub open spec fn sync_path_of(p: Seq<char>, b: Seq<char>) -> Seq<char> {
    drop_leading_seps(norm_path(p).skip(norm_path(b).len() as int))
}

/// Turns a watched file's path into its sync path relative to `base`.
pub fn get_sync_path(path: &String, base: &String) -> (r: String)
    requires
        is_prefix_of(norm_path(base@), norm_path(path@)),
    ensures
        r@ == sync_path_of(path@, base@),
{
    let np = normalize_path(path);
    let nb = normalize_path(base);
    let np_len = np.as_str().unicode_len();
    let nb_len = nb.as_str().unicode_len();
    let rest = np.as_str().substring_char(nb_len, np_len);
    let ghost restv = norm_path(path@).skip(norm_path(base@).len() as int);
    proof {
        assert(rest@ =~= restv);
    }
    let rest_len = np_len - nb_len;
    let mut j: usize = 0;
    while j < rest_len
        invariant
            0 <= j <= rest_len,
            rest@ == restv,
            restv == norm_path(path@).skip(norm_path(base@).len() as int),
            rest_len == rest@.len(),
            forall|k: int| 0 <= k < j ==> is_sep(rest@[k]),
        decreases rest_len - j,
    {
        let c = rest.get_char(j);
        if !(c == '/' || c == '\\') {
            proof {
                lemma_drop_leading_seps_at(restv, j as int);
            }
            let r = rest.substring_char(j, rest_len).to_owned();
            proof {
                assert(r@ =~= restv.skip(j as int));
            }
            return r;
        }
        j += 1;
    }
    proof {
        lemma_drop_leading_seps_at(restv, j as int);
    }
    let r = rest.substring_char(j, rest_len).to_owned();
    proof {
        assert(r@ =~= restv.skip(j as int));
    }
    r
}

/// Prefixes an error message, as in "Error File Open: <cause>".
pub fn str_err_prefix(prefix: &str, err: &str) -> (r: String)
    ensures
        r@ == prefix@ + ": "@ + err@,
{
    let mut s = prefix.to_owned();
    s.append(": ");
    s.append(err);
    proof {
        assert(s@ =~= prefix@ + ": "@ + err@);
    }
    s
}

} // verus!
