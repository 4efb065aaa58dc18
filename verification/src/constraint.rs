//! Constraint model: a declared dependency string is an optional range
//! marker (`^` or `~`) plus an exact base version.
//!
//! Parsing strips every occurrence of `^` and `~` from the declared string
//! (not only a leading one) and records which marker, if any, occurred;
//! formatting is plain concatenation of the marker and a version string.

use vstd::prelude::*;

verus! {

/// The range marker of a declared constraint: `^`, `~`, or none.
#[derive(Clone, Copy, Debug, PartialEq, Eq, Structural)]
pub enum Prefix {
    Caret,
    Tilde,
    Bare,
}

/// True of the two characters that act as range markers.
pub open spec fn is_marker(c: char) -> bool {
    c == '^' || c == '~'
}

/// The declared string with every marker character removed.
pub open spec fn strip_markers(s: Seq<char>) -> Seq<char>
    decreases s.len(),
{
    if s.len() == 0 {
        Seq::empty()
    } else {
        let rest = strip_markers(s.drop_last());
        if is_marker(s.last()) {
            rest
        } else {
            rest.push(s.last())
        }
    }
}

/// The marker recorded for a declared string: `^` wins over `~`,
/// and either anywhere in the string counts.
pub open spec fn spec_prefix(s: Seq<char>) -> Prefix {
    if s.contains('^') {
        Prefix::Caret
    } else if s.contains('~') {
        Prefix::Tilde
    } else {
        Prefix::Bare
    }
}

/// The characters a marker contributes when a constraint is written out.
pub open spec fn prefix_chars(p: Prefix) -> Seq<char> {
    match p {
        Prefix::Caret => seq!['^'],
        Prefix::Tilde => seq!['~'],
        Prefix::Bare => Seq::empty(),
    }
}

/// A declared constraint split into its marker and its exact base version.
pub struct ParsedConstraint {
    pub prefix: Prefix,
    pub base_version: String,
}

/// The marker as a string slice.
pub fn prefix_str(p: Prefix) -> (r: &'static str)
    ensures
        r@ == prefix_chars(p),
{
    proof {
        reveal_strlit("^");
        reveal_strlit("~");
        reveal_strlit("");
    }
    match p {
        Prefix::Caret => {
            let s = "^";
            proof {
                assert(s@ =~= prefix_chars(Prefix::Caret));
            }
            s
        },
        Prefix::Tilde => {
            let s = "~";
            proof {
                assert(s@ =~= prefix_chars(Prefix::Tilde));
            }
            s
        },
        Prefix::Bare => {
            let s = "";
            proof {
                assert(s@ =~= prefix_chars(Prefix::Bare));
            }
            s
        },
    }
}

/// Splits a declared constraint into its marker and its base version.
///
/// Every occurrence of `^` and `~` is stripped, wherever it stands in the
/// string, and the marker is chosen by containment: `^` if the string holds
/// one anywhere, else `~` if it holds one anywhere, else none. Any string is
/// accepted, including the empty one.
pub fn parse(declared: &str) -> (r: ParsedConstraint)
    ensures
        r.prefix == spec_prefix(declared@),
        r.base_version@ == strip_markers(declared@),
{
    let n = declared.unicode_len();
    let mut base = String::new();
    let mut has_caret = false;
    let mut has_tilde = false;
    let mut i: usize = 0;
    while i < n
        invariant
            n == declared@.len(),
            0 <= i <= n,
            base@ == strip_markers(declared@.subrange(0, i as int)),
            has_caret == declared@.subrange(0, i as int).contains('^'),
            has_tilde == declared@.subrange(0, i as int).contains('~'),
        decreases n - i,
    {
        let c = declared.get_char(i);
        proof {
            let pre = declared@.subrange(0, i as int);
            let pre1 = declared@.subrange(0, i as int + 1);
            assert(pre1.drop_last() =~= pre);
            assert(pre1.last() == declared@[i as int]);
            assert(pre1.contains('^') == (pre.contains('^') || declared@[i as int] == '^')) by {
                if pre.contains('^') {
                    let j = choose|j: int| 0 <= j < pre.len() && pre[j] == '^';
                    assert(pre1[j] == '^');
                }
                if declared@[i as int] == '^' {
                    assert(pre1[i as int] == '^');
                }
                if pre1.contains('^') {
                    let j = choose|j: int| 0 <= j < pre1.len() && pre1[j] == '^';
                    if j < i {
                        assert(pre[j] == '^');
                    }
                }
            }
            assert(pre1.contains('~') == (pre.contains('~') || declared@[i as int] == '~')) by {
                if pre.contains('~') {
                    let j = choose|j: int| 0 <= j < pre.len() && pre[j] == '~';
                    assert(pre1[j] == '~');
                }
                if declared@[i as int] == '~' {
                    assert(pre1[i as int] == '~');
                }
                if pre1.contains('~') {
                    let j = choose|j: int| 0 <= j < pre1.len() && pre1[j] == '~';
                    if j < i {
                        assert(pre[j] == '~');
                    }
                }
            }
        }
        if c == '^' {
            has_caret = true;
        } else if c == '~' {
            has_tilde = true;
        } else {
            let piece = declared.substring_char(i, i + 1);
            base = base.concat(piece);
            proof {
                assert(base@ =~= strip_markers(declared@.subrange(0, i as int + 1)));
            }
        }
        i = i + 1;
    }
    proof {
        assert(declared@.subrange(0, n as int) =~= declared@);
    }
    let prefix = if has_caret {
        Prefix::Caret
    } else if has_tilde {
        Prefix::Tilde
    } else {
        Prefix::Bare
    };
    ParsedConstraint { prefix, base_version: base }
}

/// Writes a constraint back out: the marker followed by the version.
pub fn format_constraint(prefix: Prefix, version: &str) -> (r: String)
    ensures
        r@ == prefix_chars(prefix) + version@,
{
    let p = prefix_str(prefix);
    let r = String::from_str(p).concat(version);
    proof {
        assert(r@ =~= prefix_chars(prefix) + version@);
    }
    r
}

/// Stripping touches nothing in a marker-free string.
proof fn lemma_strip_no_markers(s: Seq<char>)
    requires
        forall|j: int| 0 <= j < s.len() ==> !is_marker(#[trigger] s[j]),
    ensures
        strip_markers(s) == s,
    decreases s.len(),
{
    if s.len() > 0 {
        lemma_strip_no_markers(s.drop_last());
        assert(strip_markers(s.drop_last()).push(s.last()) =~= s);
    }
}

/// Stripping a string whose only marker is its first character drops
/// exactly that character.
proof fn lemma_strip_leading_marker(s: Seq<char>)
    requires
        s.len() >= 1,
        is_marker(s[0]),
        forall|j: int| 1 <= j < s.len() ==> !is_marker(#[trigger] s[j]),
    ensures
        strip_markers(s) == s.drop_first(),
    decreases s.len(),
{
    if s.len() == 1 {
        assert(s.drop_last().len() == 0);
        assert(strip_markers(s.drop_last()) =~= Seq::empty());
        assert(strip_markers(s) =~= s.drop_first());
    } else {
        lemma_strip_leading_marker(s.drop_last());
        assert(strip_markers(s.drop_last()).push(s.last()) =~= s.drop_first());
    }
}

/// Round trip: a constraint whose marker, if any, stands only as its first
/// character, with no other marker anywhere, is reproduced exactly when its
/// parsed marker and base version are written back out.
pub proof fn lemma_parse_format_round_trip(s: Seq<char>)
    requires
        forall|j: int| 1 <= j < s.len() ==> !is_marker(#[trigger] s[j]),
    ensures
        prefix_chars(spec_prefix(s)) + strip_markers(s) == s,
{
    if s.len() == 0 {
        assert(!s.contains('^') && !s.contains('~'));
        assert(prefix_chars(Prefix::Bare) + strip_markers(s) =~= s);
    } else if is_marker(s[0]) {
        lemma_strip_leading_marker(s);
        if s[0] == '^' {
            assert(s.contains('^'));
            assert(prefix_chars(Prefix::Caret) + s.drop_first() =~= s);
        } else {
            assert(!s.contains('^')) by {
                if s.contains('^') {
                    let j = choose|j: int| 0 <= j < s.len() && s[j] == '^';
                    assert(j >= 1 ==> !is_marker(s[j]));
                }
            }
            assert(s.contains('~'));
            assert(prefix_chars(Prefix::Tilde) + s.drop_first() =~= s);
        }
    } else {
        assert(forall|j: int| 0 <= j < s.len() ==> !is_marker(#[trigger] s[j]));
        lemma_strip_no_markers(s);
        assert(!s.contains('^')) by {
            if s.contains('^') {
                let j = choose|j: int| 0 <= j < s.len() && s[j] == '^';
                assert(!is_marker(s[j]));
            }
        }
        assert(!s.contains('~')) by {
            if s.contains('~') {
                let j = choose|j: int| 0 <= j < s.len() && s[j] == '~';
                assert(!is_marker(s[j]));
            }
        }
        assert(prefix_chars(Prefix::Bare) + s =~= s);
    }
}

} // verus!
