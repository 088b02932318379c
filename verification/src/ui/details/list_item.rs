//! How a multi-line value is shown in a list line.

use vstd::prelude::*;

verus! {

/// The text with a space put between every two newlines that follow each
/// other.
pub open spec fn spaced_newlines(s: Seq<char>) -> Seq<char>
    decreases s.len(),
{
    if s.len() == 0 {
        s
    } else {
        let rest = spaced_newlines(s.drop_last());
        if s.len() >= 2 && s[s.len() - 2] == '\n' && s.last() == '\n' {
            rest.push(' ').push('\n')
        } else {
            rest.push(s.last())
        }
    }
}

/// No two newlines follow each other in the text.
pub open spec fn no_blank_lines(s: Seq<char>) -> bool {
    forall|i: int| 0 <= i < s.len() - 1 ==> !(#[trigger] s[i] == '\n' && s[i + 1] == '\n')
}

proof fn lemma_spaced_shape(s: Seq<char>)
    ensures
        no_blank_lines(spaced_newlines(s)),
        s.len() > 0 ==> spaced_newlines(s).len() > 0 && spaced_newlines(s).last() == s.last(),
        s.len() == 0 ==> spaced_newlines(s).len() == 0,
    decreases s.len(),
{
    if s.len() > 0 {
        let t = s.drop_last();
        lemma_spaced_shape(t);
        let rest = spaced_newlines(t);
        let r = spaced_newlines(s);
        if s.len() >= 2 && s[s.len() - 2] == '\n' && s.last() == '\n' {
            assert(r == rest.push(' ').push('\n'));
            assert forall|i: int| 0 <= i < r.len() - 1 implies !(#[trigger] r[i] == '\n' && r[i + 1] == '\n') by {
                if i < rest.len() - 1 {
                    assert(r[i] == rest[i] && r[i + 1] == rest[i + 1]);
                }
            }
        } else {
            assert(r == rest.push(s.last()));
            assert forall|i: int| 0 <= i < r.len() - 1 implies !(#[trigger] r[i] == '\n' && r[i + 1] == '\n') by {
                if i < rest.len() - 1 {
                    assert(r[i] == rest[i] && r[i + 1] == rest[i + 1]);
                } else {
                    assert(t.last() == s[s.len() - 2]);
                }
            }
        }
    }
}

proof fn lemma_spaced_fixes(s: Seq<char>)
    requires
        no_blank_lines(s),
    ensures
        spaced_newlines(s) == s,
    decreases s.len(),
{
    if s.len() > 0 {
        let t = s.drop_last();
        assert forall|i: int| 0 <= i < t.len() - 1 implies !(#[trigger] t[i] == '\n' && t[i + 1] == '\n') by {
            assert(t[i] == s[i] && t[i + 1] == s[i + 1]);
        }
        lemma_spaced_fixes(t);
        if s.len() >= 2 {
            assert(!(s[s.len() - 2] == '\n' && s[s.len() - 1] == '\n'));
        }
        assert(t.push(s.last()) =~= s);
    }
}

/// Spacing newlines leaves no two newlines next to each other, and spacing a
/// text twice gives the same as spacing it once.
pub proof fn law_spacing_newlines_is_idempotent(s: Seq<char>)
    ensures
        no_blank_lines(spaced_newlines(s)),
        spaced_newlines(spaced_newlines(s)) == spaced_newlines(s),
{
    lemma_spaced_shape(s);
    lemma_spaced_fixes(spaced_newlines(s));
}

/// Puts a space between every two newlines that follow each other, so that
/// no line of the text is empty.
pub fn replace_consecutive_newlines(input: String) -> (output: String)
    ensures
        output@ == spaced_newlines(input@),
{
    let text = input.as_str();
    let n = text.unicode_len();
    let mut output = String::new();
    let mut i: usize = 0;
    let mut previous_newline = false;
    while i < n
        invariant
            0 <= i <= n,
            n == input@.len(),
            text@ == input@,
            output@ == spaced_newlines(input@.take(i as int)),
            previous_newline == (i > 0 && input@[i - 1] == '\n'),
        decreases n - i,
    {
        let c = text.get_char(i);
        let ghost s = input@.take(i + 1);
        assert(s.drop_last() =~= input@.take(i as int));
        if previous_newline && c == '\n' {
            crate::text::push_char(&mut output, ' ');
        }
        crate::text::push_char(&mut output, c);
        previous_newline = c == '\n';
        i += 1;
    }
    assert(input@.take(n as int) =~= input@);
    output
}

} // verus!
