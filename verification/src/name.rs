//! How a full hierarchical name is read.
//!
//! A full name such as `"sub.sub.example"` splits on `.` into labels; its
//! final label (`"example"`) is the top name, and the labels before it form
//! the subname path (`"sub.sub"`). A single-label name has the empty subname
//! path. Labels are taken literally: no case-folding, no trimming, and empty
//! labels (as in `"a..b"` or a trailing dot) are preserved, not rejected.
//!
//! A full name may carry the scheme prefix `"safe://"`, which is stripped
//! before the labels are read.

use vstd::prelude::*;

verus! {

/// Strips one leading `"safe://"` scheme prefix, if present.
pub open spec fn strip_scheme(s: Seq<char>) -> Seq<char> {
    if s.len() >= 7 && s.take(7) == "safe://"@ {
        s.skip(7)
    } else {
        s
    }
}

/// Everything before the last `.` of `s`; the empty sequence when `s` holds
/// no `.` at all. On a scheme-less full name this is exactly the subname
/// path: the name with its final label (the top name) removed.
pub open spec fn subname_path_core(s: Seq<char>) -> Seq<char>
    decreases s.len(),
{
    if s.len() == 0 {
        Seq::empty()
    } else if s.last() == '.' {
        s.drop_last()
    } else {
        subname_path_core(s.drop_last())
    }
}

/// The subname path a full name derives to: the scheme prefix is stripped and
/// the final label dropped.
pub open spec fn subname_path(s: Seq<char>) -> Seq<char> {
    subname_path_core(strip_scheme(s))
}

/// Labels joined with `.`; the empty label sequence joins to the empty string.
pub open spec fn joined_labels(labels: Seq<Seq<char>>) -> Seq<char>
    decreases labels.len(),
{
    if labels.len() == 0 {
        Seq::empty()
    } else if labels.len() == 1 {
        labels[0]
    } else {
        joined_labels(labels.drop_last()) + seq!['.'] + labels.last()
    }
}

/// The views of a sequence of owned label strings.
pub open spec fn label_views(labels: Seq<String>) -> Seq<Seq<char>> {
    labels.map_values(|label: String| label@)
}

/// A label holds no `.` of its own.
pub open spec fn dot_free(label: Seq<char>) -> bool {
    forall|i: int| 0 <= i < label.len() ==> label[i] != '.'
}

/// Character-for-character equality of two string slices.
pub fn str_eq(a: &str, b: &str) -> (r: bool)
    ensures
        r == (a@ == b@),
{
    let a_len = a.unicode_len();
    let b_len = b.unicode_len();
    if a_len != b_len {
        return false;
    }
    let mut i: usize = 0;
    while i < a_len
        invariant
            i <= a_len,
            a_len == a@.len(),
            b_len == b@.len(),
            a_len == b_len,
            forall|j: int| 0 <= j < i ==> a@[j] == b@[j],
        decreases a_len - i,
    {
        if a.get_char(i) != b.get_char(i) {
            return false;
        }
        i += 1;
    }
    proof {
        assert(a@ =~= b@);
    }
    true
}

/// Joins subname labels with `.` into a subname path key; an empty label
/// sequence yields the empty string.
pub fn sub_names_vec_to_str(sub_names: &[String]) -> (r: String)
    ensures
        r@ == joined_labels(label_views(sub_names@)),
{
    let n = sub_names.len();
    let mut out = String::new();
    if n == 0 {
        return out;
    }
    out.append(sub_names[0].as_str());
    proof {
        assert(label_views(sub_names@).take(1) =~= seq![sub_names@[0]@]);
    }
    let mut i: usize = 1;
    while i < n
        invariant
            1 <= i <= n,
            n == sub_names@.len(),
            out@ == joined_labels(label_views(sub_names@).take(i as int)),
        decreases n - i,
    {
        out.append(".");
        out.append(sub_names[i].as_str());
        proof {
            reveal_strlit(".");
            let views = label_views(sub_names@);
            assert(views.take(i + 1).drop_last() =~= views.take(i as int));
            assert(views.take(i + 1).last() == views[i as int]);
            assert("."@ =~= seq!['.']);
        }
        i += 1;
    }
    proof {
        assert(label_views(sub_names@).take(n as int) =~= label_views(sub_names@));
    }
    out
}

/// Removes the top name from a given full name, yielding the subname path:
/// `"sub.sub.topname"` derives to `"sub.sub"`, `"sub.cooltopname"` to
/// `"sub"`, and `"lonetopname"` to `""`. A leading `"safe://"` is stripped
/// first.
pub fn parse_out_subnames(name: &str) -> (r: String)
    ensures
        r@ == subname_path(name@),
{
    let len = name.unicode_len();
    let has_scheme = if len >= 7 {
        str_eq(name.substring_char(0, 7), "safe://")
    } else {
        false
    };
    let stripped: &str = if has_scheme {
        name.substring_char(7, len)
    } else {
        name
    };
    proof {
        assert(stripped@ == strip_scheme(name@));
    }
    let stripped_len = stripped.unicode_len();
    let mut i: usize = stripped_len;
    while i > 0
        invariant
            i <= stripped_len,
            stripped_len == stripped@.len(),
            stripped@ == strip_scheme(name@),
            forall|j: int| i <= j < stripped_len ==> stripped@[j] != '.',
        decreases i,
    {
        if stripped.get_char(i - 1) == '.' {
            let path = stripped.substring_char(0, i - 1);
            proof {
                lemma_subname_path_core_take(stripped@, i - 1);
            }
            return String::from_str(path);
        }
        i -= 1;
    }
    proof {
        lemma_subname_path_core_dotless(stripped@);
    }
    String::new()
}

/// Where the last `.` of `s` stands at `k`, everything before the last `.`
/// is the first `k` characters.
proof fn lemma_subname_path_core_take(s: Seq<char>, k: int)
    requires
        0 <= k < s.len(),
        s[k] == '.',
        forall|j: int| k < j < s.len() ==> s[j] != '.',
    ensures
        subname_path_core(s) == s.take(k),
    decreases s.len(),
{
    if k == s.len() - 1 {
        assert(s.last() == '.');
        assert(s.drop_last() =~= s.take(k));
    } else {
        assert(s.last() != '.');
        lemma_subname_path_core_take(s.drop_last(), k);
        assert(s.drop_last().take(k) =~= s.take(k));
    }
}

/// A sequence without any `.` has the empty subname path.
proof fn lemma_subname_path_core_dotless(s: Seq<char>)
    requires
        dot_free(s),
    ensures
        subname_path_core(s) == Seq::<char>::empty(),
    decreases s.len(),
{
    if s.len() > 0 {
        assert(s.last() != '.');
        lemma_subname_path_core_dotless(s.drop_last());
    }
}

/// Everything before the last `.` of `prefix + "." + tail`, with a dot-free
/// tail, is exactly `prefix`.
proof fn lemma_core_after_last_dot(prefix: Seq<char>, tail: Seq<char>)
    requires
        dot_free(tail),
    ensures
        subname_path_core(prefix + seq!['.'] + tail) == prefix,
    decreases tail.len(),
{
    let s = prefix + seq!['.'] + tail;
    if tail.len() == 0 {
        assert(s =~= prefix + seq!['.']);
        assert(s.last() == '.');
        assert(s.drop_last() =~= prefix);
    } else {
        assert(s.last() == tail.last());
        assert(s.last() != '.');
        assert(s.drop_last() =~= prefix + seq!['.'] + tail.drop_last());
        lemma_core_after_last_dot(prefix, tail.drop_last());
    }
}

/// Derivation law: a full name of `k >= 1` dot-free labels joined with `.`,
/// not beginning with the scheme prefix, derives to its first `k - 1` labels
/// joined with `.`; a single-label name derives to the empty path.
pub proof fn lemma_subname_path_of_joined_labels(labels: Seq<Seq<char>>)
    requires
        labels.len() >= 1,
        forall|i: int| 0 <= i < labels.len() ==> dot_free(#[trigger] labels[i]),
        strip_scheme(joined_labels(labels)) == joined_labels(labels),
    ensures
        subname_path(joined_labels(labels)) == joined_labels(labels.drop_last()),
{
    if labels.len() == 1 {
        assert(dot_free(labels[0]));
        lemma_subname_path_core_dotless(labels[0]);
    } else {
        assert(dot_free(labels.last()));
        lemma_core_after_last_dot(joined_labels(labels.drop_last()), labels.last());
    }
}

} // verus!
