//! The path-template compiler. A template such as `/posts/{id}` or
//! `/files/{name:.*}` is scanned with a brace-depth counter into literal
//! boundary text and parameter specs, and compiled into an anchored
//! matcher source with one capture group per parameter, plus the ordered
//! list of parameter names.

use vstd::prelude::*;

use crate::ext::MatchContext;
use crate::re::{
    regex_capture_list, regex_compiles, regex_group, regex_is_match, regex_match, regex_new,
    regex_source,
};
use crate::strutil::push_char;
use crate::assoc::StrAssoc;

verus! {

/// Why a template was rejected at registration time.
#[derive(PartialEq, Eq, Structural, Clone, Copy, Debug)]
pub enum TemplateError {
    /// Brace depth went negative or did not return to zero, or text stood
    /// inside nested braces.
    MismatchedBraces,
    /// A parameter had an empty name or an empty pattern.
    EmptySpec,
    /// The matcher engine refused the generated pattern: a parameter's
    /// custom sub-pattern is invalid, or the unescaped literal text
    /// holds matcher metacharacters that leave the source ill-formed.
    BadPattern,
}

/// The scanner: literal text accumulates at depth 0, a parameter spec at
/// depth 1; `{` and `}` move the depth; closing a brace emits the pair of
/// boundary text and parameter spec. Text at depth 2 or more, a close at
/// depth 0, or a depth left open at the end is a brace mismatch.
pub open spec fn scan_segments(
    chars: Seq<char>,
    depth: int,
    seg: Seq<char>,
    param: Seq<char>,
    acc: Seq<(Seq<char>, Seq<char>)>,
) -> Result<Seq<(Seq<char>, Seq<char>)>, TemplateError>
    decreases chars.len(),
{
    if chars.len() == 0 {
        if depth == 0 {
            Ok(acc)
        } else {
            Err(TemplateError::MismatchedBraces)
        }
    } else {
        let c = chars[0];
        let rest = chars.skip(1);
        if c == '{' {
            scan_segments(rest, depth + 1, seg, param, acc)
        } else if c == '}' {
            if depth <= 0 {
                Err(TemplateError::MismatchedBraces)
            } else {
                scan_segments(rest, depth - 1, Seq::empty(), Seq::empty(), acc.push((seg, param)))
            }
        } else if depth == 0 {
            scan_segments(rest, depth, seg.push(c), param, acc)
        } else if depth == 1 {
            scan_segments(rest, depth, seg, param.push(c), acc)
        } else {
            Err(TemplateError::MismatchedBraces)
        }
    }
}

/// The segments of a whole template: pairs of preceding literal text and
/// parameter spec, in order.
pub open spec fn spec_extract_segments(s: Seq<char>) -> Result<
    Seq<(Seq<char>, Seq<char>)>,
    TemplateError,
> {
    scan_segments(s, 0, Seq::empty(), Seq::empty(), Seq::empty())
}

/// Extracts named parameters from a template string: begins capturing at
/// `{`, stops at `}`, and fails on unbalanced or nested braces.
pub fn extract_segments(input: &str) -> (r: Result<Vec<(String, String)>, TemplateError>)
    ensures
        match r {
            Ok(v) => spec_extract_segments(input@) matches Ok(sv) && sv == v.deep_view(),
            Err(e) => spec_extract_segments(input@) matches Err(se) && se == e,
        },
{
    let n: usize = input.unicode_len();
    let mut depth: usize = 0;
    let mut seg = String::new();
    let mut param = String::new();
    let mut out: Vec<(String, String)> = Vec::new();
    let mut i: usize = 0;
    proof {
        assert(input@.skip(0) =~= input@);
        assert(out.deep_view() =~= Seq::<(Seq<char>, Seq<char>)>::empty());
    }
    while i < n
        invariant
            i <= n,
            n == input@.len(),
            depth <= i,
            scan_segments(input@.skip(i as int), depth as int, seg@, param@, out.deep_view())
                == spec_extract_segments(input@),
        decreases n - i,
    {
        proof {
            assert(input@.skip(i as int)[0] == input@[i as int]);
            assert(input@.skip(i as int).skip(1) =~= input@.skip(i + 1));
        }
        let c = input.get_char(i);
        if c == '{' {
            depth += 1;
        } else if c == '}' {
            if depth == 0 {
                return Err(TemplateError::MismatchedBraces);
            }
            depth -= 1;
            let ghost pre_out = out.deep_view();
            let ghost seg_view = seg@;
            let ghost param_view = param@;
            out.push((seg, param));
            seg = String::new();
            param = String::new();
            proof {
                assert(out.deep_view() =~= pre_out.push((seg_view, param_view)));
            }
        } else if depth == 0 {
            push_char(&mut seg, c);
        } else if depth == 1 {
            push_char(&mut param, c);
        } else {
            return Err(TemplateError::MismatchedBraces);
        }
        i += 1;
    }
    proof {
        assert(input@.skip(n as int) =~= Seq::<char>::empty());
    }
    if depth == 0 {
        Ok(out)
    } else {
        Err(TemplateError::MismatchedBraces)
    }
}

/// How often `c` occurs in `s`.
pub open spec fn count_char(s: Seq<char>, c: char) -> nat
    decreases s.len(),
{
    if s.len() == 0 {
        0
    } else {
        (if s[0] == c {
            1nat
        } else {
            0nat
        }) + count_char(s.skip(1), c)
    }
}

/// A scan that ends in balanced state consumed as many opening as closing
/// braces, shifted by the depth it started at.
proof fn lemma_scan_balance(
    chars: Seq<char>,
    depth: int,
    seg: Seq<char>,
    param: Seq<char>,
    acc: Seq<(Seq<char>, Seq<char>)>,
)
    ensures
        scan_segments(chars, depth, seg, param, acc) is Ok ==> depth + count_char(chars, '{')
            == count_char(chars, '}'),
    decreases chars.len(),
{
    if chars.len() == 0 {
    } else {
        let c = chars[0];
        let rest = chars.skip(1);
        if c == '{' {
            lemma_scan_balance(rest, depth + 1, seg, param, acc);
        } else if c == '}' {
            if depth > 0 {
                lemma_scan_balance(
                    rest,
                    depth - 1,
                    Seq::empty(),
                    Seq::empty(),
                    acc.push((seg, param)),
                );
            }
        } else if depth == 0 {
            lemma_scan_balance(rest, depth, seg.push(c), param, acc);
        } else if depth == 1 {
            lemma_scan_balance(rest, depth, seg, param.push(c), acc);
        }
    }
}

/// The scanner knows only one failure: a brace mismatch.
proof fn lemma_scan_err_kind(
    chars: Seq<char>,
    depth: int,
    seg: Seq<char>,
    param: Seq<char>,
    acc: Seq<(Seq<char>, Seq<char>)>,
)
    ensures
        scan_segments(chars, depth, seg, param, acc) is Err ==> scan_segments(
            chars,
            depth,
            seg,
            param,
            acc,
        ) == Err::<Seq<(Seq<char>, Seq<char>)>, TemplateError>(TemplateError::MismatchedBraces),
    decreases chars.len(),
{
    if chars.len() == 0 {
    } else {
        let c = chars[0];
        let rest = chars.skip(1);
        if c == '{' {
            lemma_scan_err_kind(rest, depth + 1, seg, param, acc);
        } else if c == '}' {
            if depth > 0 {
                lemma_scan_err_kind(
                    rest,
                    depth - 1,
                    Seq::empty(),
                    Seq::empty(),
                    acc.push((seg, param)),
                );
            }
        } else if depth == 0 {
            lemma_scan_err_kind(rest, depth, seg.push(c), param, acc);
        } else if depth == 1 {
            lemma_scan_err_kind(rest, depth, seg, param.push(c), acc);
        }
    }
}

/// A template whose opening and closing braces do not pair up — one of
/// them is missing — is rejected with a brace mismatch.
pub proof fn lemma_unbalanced_braces_rejected(s: Seq<char>)
    requires
        count_char(s, '{') != count_char(s, '}'),
    ensures
        spec_extract_segments(s) == Err::<Seq<(Seq<char>, Seq<char>)>, TemplateError>(
            TemplateError::MismatchedBraces,
        ),
{
    lemma_scan_balance(s, 0, Seq::empty(), Seq::empty(), Seq::empty());
    lemma_scan_err_kind(s, 0, Seq::empty(), Seq::empty(), Seq::empty());
}

/// A template with a missing opening or closing brace — unequal brace
/// counts — is rejected by compilation with a brace mismatch.
pub proof fn lemma_unbalanced_template_rejected(s: Seq<char>)
    requires
        count_char(s, '{') != count_char(s, '}'),
    ensures
        spec_compile(s) == Err::<(Seq<char>, Seq<Seq<char>>), TemplateError>(
            TemplateError::MismatchedBraces,
        ),
{
    lemma_unbalanced_braces_rejected(s);
}

/// The parameter name: the spec text up to its first colon.
pub open spec fn prefix_to_colon(s: Seq<char>) -> Seq<char>
    decreases s.len(),
{
    if s.len() == 0 {
        s
    } else if s[0] == ':' {
        Seq::empty()
    } else {
        seq![s[0]] + prefix_to_colon(s.skip(1))
    }
}

/// The spec text after its first colon.
pub open spec fn after_first_colon(s: Seq<char>) -> Seq<char>
    decreases s.len(),
{
    if s.len() == 0 {
        s
    } else if s[0] == ':' {
        s.skip(1)
    } else {
        after_first_colon(s.skip(1))
    }
}

/// The sub-pattern a parameter matches when it names none itself: any run
/// of characters within one path segment, the empty run included.
pub open spec fn default_pattern() -> Seq<char> {
    "[^/]*"@
}

/// The sub-pattern of a parameter spec: the text after the colon when
/// there is exactly one colon, and the default pattern otherwise.
pub open spec fn param_pattern(s: Seq<char>) -> Seq<char> {
    if count_char(s, ':') == 1 {
        after_first_colon(s)
    } else {
        default_pattern()
    }
}

proof fn lemma_no_colon(s: Seq<char>)
    requires
        forall|k: int| 0 <= k < s.len() ==> s[k] != ':',
    ensures
        prefix_to_colon(s) =~= s,
        count_char(s, ':') == 0,
    decreases s.len(),
{
    if s.len() > 0 {
        lemma_no_colon(s.skip(1));
        assert(seq![s[0]] + s.skip(1) =~= s);
    }
}

proof fn lemma_first_colon(s: Seq<char>, j: int)
    requires
        0 <= j < s.len(),
        s[j] == ':',
        forall|k: int| 0 <= k < j ==> s[k] != ':',
    ensures
        prefix_to_colon(s) =~= s.take(j),
        after_first_colon(s) =~= s.skip(j + 1),
        count_char(s, ':') == 1 + count_char(s.skip(j + 1), ':'),
    decreases j,
{
    if j == 0 {
        assert(s.take(0) =~= Seq::<char>::empty());
    } else {
        let rest = s.skip(1);
        assert(forall|k: int| 0 <= k < j - 1 ==> rest[k] != ':');
        lemma_first_colon(rest, j - 1);
        assert(seq![s[0]] + rest.take(j - 1) =~= s.take(j));
        assert(rest.skip(j) =~= s.skip(j + 1));
    }
}

/// Splits one parameter spec into its name and its sub-pattern.
fn split_param(seg: &str) -> (r: (String, String))
    ensures
        r.0@ == prefix_to_colon(seg@),
        r.1@ == param_pattern(seg@),
{
    let len: usize = seg.unicode_len();
    let mut j: usize = 0;
    while j < len && seg.get_char(j) != ':'
        invariant
            j <= len,
            len == seg@.len(),
            forall|k: int| 0 <= k < j ==> seg@[k] != ':',
        decreases len - j,
    {
        j += 1;
    }
    if j == len {
        proof {
            lemma_no_colon(seg@);
            assert(seg@.take(len as int) =~= seg@);
        }
        let name = seg.substring_char(0, len).to_owned();
        let patt = "[^/]*".to_owned();
        (name, patt)
    } else {
        proof {
            lemma_first_colon(seg@, j as int);
        }
        let name = seg.substring_char(0, j).to_owned();
        let mut j2: usize = j + 1;
        while j2 < len && seg.get_char(j2) != ':'
            invariant
                j + 1 <= j2 <= len,
                len == seg@.len(),
                forall|k: int| j + 1 <= k < j2 ==> seg@[k] != ':',
            decreases len - j2,
        {
            j2 += 1;
        }
        if j2 == len {
            proof {
                assert forall|k: int| 0 <= k < seg@.skip(j + 1).len() implies #[trigger] seg@.skip(
                    j + 1,
                )[k] != ':' by {
                    assert(seg@.skip(j + 1)[k] == seg@[k + j + 1]);
                }
                lemma_no_colon(seg@.skip(j + 1));
            }
            let patt = seg.substring_char(j + 1, len).to_owned();
            proof {
                assert(patt@ =~= seg@.skip(j + 1));
            }
            (name, patt)
        } else {
            proof {
                let rest = seg@.skip(j + 1);
                assert(rest[j2 - j - 1] == seg@[j2 as int]);
                assert(forall|k: int| 0 <= k < j2 - j - 1 ==> rest[k] != ':');
                lemma_first_colon(rest, j2 - j - 1);
            }
            let patt = "[^/]*".to_owned();
            (name, patt)
        }
    }
}

/// The template text after its last closing brace — the literal tail of
/// the matcher — or the whole template when it closes no brace.
pub open spec fn after_last_rbrace(s: Seq<char>) -> Seq<char>
    decreases s.len(),
{
    if s.len() == 0 {
        s
    } else if s.last() == '}' {
        Seq::empty()
    } else {
        after_last_rbrace(s.drop_last()).push(s.last())
    }
}

proof fn lemma_rbrace_free_tail(s: Seq<char>, b: int)
    requires
        0 <= b <= s.len(),
        forall|k: int| b <= k < s.len() ==> s[k] != '}',
    ensures
        after_last_rbrace(s) =~= after_last_rbrace(s.take(b)) + s.skip(b),
    decreases s.len() - b,
{
    if b == s.len() {
        assert(s.take(b) =~= s);
        assert(after_last_rbrace(s) =~= after_last_rbrace(s) + s.skip(b));
    } else {
        let shorter = s.drop_last();
        assert(s.last() != '}');
        lemma_rbrace_free_tail(shorter, b);
        assert(shorter.take(b) =~= s.take(b));
        assert((after_last_rbrace(s.take(b)) + shorter.skip(b)).push(s.last()) =~= after_last_rbrace(
            s.take(b),
        ) + s.skip(b));
    }
}

/// The literal tail of a template: everything after the last `}`.
fn trailing_text(input: &str) -> (r: String)
    ensures
        r@ == after_last_rbrace(input@),
{
    let len: usize = input.unicode_len();
    let mut b: usize = len;
    while b > 0 && input.get_char(b - 1) != '}'
        invariant
            b <= len,
            len == input@.len(),
            forall|k: int| b <= k < len ==> input@[k] != '}',
        decreases b,
    {
        b -= 1;
    }
    proof {
        lemma_rbrace_free_tail(input@, b as int);
        if b == 0 {
            assert(input@.take(0) =~= Seq::<char>::empty());
            assert(after_last_rbrace(input@) =~= input@.skip(0));
        } else {
            assert(input@.take(b as int).last() == input@[b - 1]);
        }
    }
    let piece = input.substring_char(b, len);
    proof {
        assert(piece@ =~= input@.skip(b as int));
    }
    piece.to_owned()
}

/// The matcher text contributed by the segments: each segment's literal
/// boundary text followed by its sub-pattern in a capture group.
pub open spec fn groups_source(segs: Seq<(Seq<char>, Seq<char>)>) -> Seq<char>
    decreases segs.len(),
{
    if segs.len() == 0 {
        Seq::empty()
    } else {
        groups_source(segs.drop_last()) + segs.last().0 + seq!['('] + param_pattern(
            segs.last().1,
        ) + seq![')']
    }
}

/// The full matcher source: anchored at both ends around the grouped
/// segments and the literal tail, so a template never matches a prefix.
pub open spec fn matcher_source(segs: Seq<(Seq<char>, Seq<char>)>, trailing: Seq<char>) -> Seq<
    char,
> {
    seq!['^'] + groups_source(segs) + trailing + seq!['$']
}

/// The parameter names, in segment order.
pub open spec fn spec_param_names(segs: Seq<(Seq<char>, Seq<char>)>) -> Seq<Seq<char>>
    decreases segs.len(),
{
    if segs.len() == 0 {
        Seq::empty()
    } else {
        spec_param_names(segs.drop_last()).push(prefix_to_colon(segs.last().1))
    }
}

/// Some segment has an empty name or an empty sub-pattern.
pub open spec fn has_empty_spec(segs: Seq<(Seq<char>, Seq<char>)>) -> bool {
    exists|i: int|
        0 <= i < segs.len() && (prefix_to_colon(segs[i].1).len() == 0 || param_pattern(
            segs[i].1,
        ).len() == 0)
}

proof fn lemma_count_single(c: char, d: char)
    ensures
        count_char(seq![c], d) == (if c == d {
            1nat
        } else {
            0nat
        }),
{
    assert(seq![c].skip(1) =~= Seq::<char>::empty());
    assert(count_char(Seq::<char>::empty(), d) == 0);
    assert(seq![c][0] == c);
}

proof fn lemma_count_concat(a: Seq<char>, b: Seq<char>, c: char)
    ensures
        count_char(a + b, c) == count_char(a, c) + count_char(b, c),
    decreases a.len(),
{
    if a.len() == 0 {
        assert(a + b =~= b);
    } else {
        lemma_count_concat(a.skip(1), b, c);
        assert((a + b).skip(1) =~= a.skip(1) + b);
        assert((a + b)[0] == a[0]);
    }
}

proof fn lemma_names_len(segs: Seq<(Seq<char>, Seq<char>)>)
    ensures
        spec_param_names(segs).len() == segs.len(),
    decreases segs.len(),
{
    if segs.len() > 0 {
        lemma_names_len(segs.drop_last());
    }
}

proof fn lemma_groups_source_count(segs: Seq<(Seq<char>, Seq<char>)>)
    requires
        forall|i: int| 0 <= i < segs.len() ==> count_char((#[trigger] segs[i]).0, '(') == 0,
        forall|i: int|
            0 <= i < segs.len() ==> count_char(param_pattern((#[trigger] segs[i]).1), '(') == 0,
    ensures
        count_char(groups_source(segs), '(') == segs.len(),
    decreases segs.len(),
{
    if segs.len() == 0 {
    } else {
        let shorter = segs.drop_last();
        assert(forall|i: int| 0 <= i < shorter.len() ==> shorter[i] == #[trigger] segs[i]);
        lemma_groups_source_count(shorter);
        let last = segs.last();
        assert(last == segs[segs.len() - 1]);
        lemma_count_concat(groups_source(shorter), last.0, '(');
        lemma_count_concat(groups_source(shorter) + last.0, seq!['('], '(');
        lemma_count_concat(
            groups_source(shorter) + last.0 + seq!['('],
            param_pattern(last.1),
            '(',
        );
        lemma_count_concat(
            groups_source(shorter) + last.0 + seq!['('] + param_pattern(last.1),
            seq![')'],
            '(',
        );
        lemma_count_single('(', '(');
        lemma_count_single(')', '(');
    }
}

/// A compiled template binds its parameter names to capture groups one
/// for one: when the literal boundary text and the sub-patterns hold no
/// group-opening parenthesis — the default sub-pattern holds none — the
/// matcher source holds exactly one capture group per parameter name.
/// Literal text is not escaped before it reaches the matcher, so a
/// parenthesis inside it would open a further group; the law is stated
/// away from that flagged case.
pub proof fn lemma_names_match_capture_groups(segs: Seq<(Seq<char>, Seq<char>)>, trailing: Seq<
    char,
>)
    requires
        forall|i: int| 0 <= i < segs.len() ==> count_char((#[trigger] segs[i]).0, '(') == 0,
        forall|i: int|
            0 <= i < segs.len() ==> count_char(param_pattern((#[trigger] segs[i]).1), '(') == 0,
        count_char(trailing, '(') == 0,
    ensures
        count_char(matcher_source(segs, trailing), '(') == spec_param_names(segs).len(),
{
    lemma_groups_source_count(segs);
    lemma_names_len(segs);
    lemma_count_concat(seq!['^'], groups_source(segs), '(');
    lemma_count_concat(seq!['^'] + groups_source(segs), trailing, '(');
    lemma_count_concat(seq!['^'] + groups_source(segs) + trailing, seq!['$'], '(');
    lemma_count_single('^', '(');
    lemma_count_single('$', '(');
}

/// What compiling a template yields before the matcher engine sees it:
/// the matcher source and the parameter names, or the reason the
/// template is malformed.
pub open spec fn spec_compile(t: Seq<char>) -> Result<(Seq<char>, Seq<Seq<char>>), TemplateError> {
    match spec_extract_segments(t) {
        Err(e) => Err(e),
        Ok(segs) => if has_empty_spec(segs) {
            Err(TemplateError::EmptySpec)
        } else {
            Ok((matcher_source(segs, after_last_rbrace(t)), spec_param_names(segs)))
        },
    }
}

/// Compiles a template into its matcher source and parameter names. This
/// is the whole compilation except for handing the source to the matcher
/// engine.
pub fn build_matcher(template: &str) -> (r: Result<(String, Vec<String>), TemplateError>)
    ensures
        match r {
            Ok(p) => spec_compile(template@) matches Ok(sp) && sp.0 == p.0@ && sp.1
                == p.1.deep_view(),
            Err(e) => spec_compile(template@) matches Err(se) && se == e,
        },
{
    let segs = match extract_segments(template) {
        Ok(segs) => segs,
        Err(e) => {
            return Err(e);
        },
    };
    let ghost segs_view = segs.deep_view();
    let n: usize = segs.len();
    let mut src = "^".to_owned();
    let mut names: Vec<String> = Vec::new();
    let mut k: usize = 0;
    proof {
        reveal_strlit("^");
        assert(segs_view.take(0) =~= Seq::<(Seq<char>, Seq<char>)>::empty());
        assert(src@ =~= seq!['^'] + groups_source(segs_view.take(0)));
        assert(names.deep_view() =~= spec_param_names(segs_view.take(0)));
    }
    while k < n
        invariant
            k <= n,
            n == segs@.len(),
            segs_view == segs.deep_view(),
            spec_extract_segments(template@) == Ok::<Seq<(Seq<char>, Seq<char>)>, TemplateError>(
                segs_view,
            ),
            segs_view.len() == n,
            forall|l: int| 0 <= l < n ==> segs_view[l] == (segs@[l].0@, segs@[l].1@),
            src@ == seq!['^'] + groups_source(segs_view.take(k as int)),
            names.deep_view() == spec_param_names(segs_view.take(k as int)),
            forall|l: int|
                0 <= l < k ==> prefix_to_colon(#[trigger] segs_view[l].1).len() > 0
                    && param_pattern(segs_view[l].1).len() > 0,
        decreases n - k,
    {
        proof {
            assert(segs_view.take(k + 1).drop_last() =~= segs_view.take(k as int));
            assert(segs_view.take(k + 1).last() == segs_view[k as int]);
        }
        let (name, patt) = split_param(segs[k].1.as_str());
        if name.as_str().unicode_len() == 0 || patt.as_str().unicode_len() == 0 {
            proof {
                assert(prefix_to_colon(segs_view[k as int].1).len() == 0 || param_pattern(
                    segs_view[k as int].1,
                ).len() == 0);
                assert(has_empty_spec(segs_view));
            }
            return Err(TemplateError::EmptySpec);
        }
        let ghost names_pre = names.deep_view();
        names.push(name);
        proof {
            assert(names.deep_view() =~= names_pre.push(prefix_to_colon(segs_view[k as int].1)));
        }
        src.append(segs[k].0.as_str());
        push_char(&mut src, '(');
        src.append(patt.as_str());
        push_char(&mut src, ')');
        proof {
            assert(src@ =~= seq!['^'] + groups_source(segs_view.take(k + 1)));
        }
        k += 1;
    }
    proof {
        assert(segs_view.take(n as int) =~= segs_view);
    }
    let trailing = trailing_text(template);
    src.append(trailing.as_str());
    push_char(&mut src, '$');
    proof {
        assert(src@ =~= matcher_source(segs_view, after_last_rbrace(template@)));
    }
    Ok((src, names))
}

/// A compiled route expression: an anchored matcher together with the
/// ordered names its capture groups bind. `names[i]` belongs to capture
/// group `i + 1`; group 0 is the whole match.
pub struct Expression {
    names: Vec<String>,
    source: String,
    regex: regex::Regex,
}

/// The parameter captures of `names` against the groups that matched:
/// group `i + 1` under `names[i]`, skipping groups that did not
/// participate; a later name shadows an earlier equal one.
pub open spec fn mc_fold(names: Seq<Seq<char>>, pattern: Seq<char>, path: Seq<char>) -> Map<
    Seq<char>,
    Seq<char>,
>
    decreases names.len(),
{
    if names.len() == 0 {
        Map::empty()
    } else {
        let m = mc_fold(names.drop_last(), pattern, path);
        match regex_group(pattern, path, names.len() as int) {
            Some(v) => m.insert(names.last(), v),
            None => m,
        }
    }
}

/// The match context a path yields: empty when the path does not match,
/// else the captures under their parameter names.
pub open spec fn spec_map_path(names: Seq<Seq<char>>, pattern: Seq<char>, path: Seq<char>) -> Map<
    Seq<char>,
    Seq<char>,
> {
    if regex_match(pattern, path) {
        mc_fold(names, pattern, path)
    } else {
        Map::empty()
    }
}

/// Every key of the extracted context is one of the parameter names.
pub proof fn lemma_mc_fold_domain(
    names: Seq<Seq<char>>,
    pattern: Seq<char>,
    path: Seq<char>,
    k: Seq<char>,
)
    requires
        mc_fold(names, pattern, path).contains_key(k),
    ensures
        exists|j: int| 0 <= j < names.len() && names[j] == k,
    decreases names.len(),
{
    if names.len() == 0 {
    } else if names.last() == k && regex_group(pattern, path, names.len() as int) is Some {
        assert(names[names.len() - 1] == k);
    } else {
        let m = mc_fold(names.drop_last(), pattern, path);
        assert(m.contains_key(k));
        lemma_mc_fold_domain(names.drop_last(), pattern, path, k);
        let j = choose|j: int| 0 <= j < names.drop_last().len() && names.drop_last()[j] == k;
        assert(names[j] == k);
    }
}

/// Extraction recovers the captures exactly: on a matching path, and
/// with pairwise distinct parameter names, the context binds the i-th
/// name precisely when capture group `i + 1` participated in the match,
/// and then to exactly that group's text; a group that did not
/// participate leaves its name out rather than bound to an empty string.
pub proof fn lemma_map_path_captures(
    names: Seq<Seq<char>>,
    pattern: Seq<char>,
    path: Seq<char>,
    i: int,
)
    requires
        regex_match(pattern, path),
        0 <= i < names.len(),
        forall|a: int, b: int| 0 <= a < b < names.len() ==> names[a] != names[b],
    ensures
        match regex_group(pattern, path, i + 1) {
            Some(v) => spec_map_path(names, pattern, path).contains_key(names[i])
                && spec_map_path(names, pattern, path)[names[i]] == v,
            None => !spec_map_path(names, pattern, path).contains_key(names[i]),
        },
    decreases names.len(),
{
    let shorter = names.drop_last();
    assert(forall|l: int| 0 <= l < shorter.len() ==> shorter[l] == #[trigger] names[l]);
    if i == names.len() - 1 {
        assert(names.last() == names[i]);
        match regex_group(pattern, path, i + 1) {
            Some(v) => {},
            None => {
                if mc_fold(shorter, pattern, path).contains_key(names[i]) {
                    lemma_mc_fold_domain(shorter, pattern, path, names[i]);
                    let j = choose|j: int| 0 <= j < shorter.len() && shorter[j] == names[i];
                    assert(names[j] == names[i]);
                    assert(false);
                }
            },
        }
    } else {
        assert forall|a: int, b: int|
            0 <= a < b < shorter.len() implies #[trigger] shorter[a] != #[trigger] shorter[b] by {
            assert(shorter[a] == names[a]);
            assert(shorter[b] == names[b]);
        }
        lemma_map_path_captures(shorter, pattern, path, i);
        assert(names.last() == names[names.len() - 1]);
        assert(names[i] != names[names.len() - 1]);
    }
}

impl Expression {
    /// The ordered parameter names.
    pub closed spec fn names_view(&self) -> Seq<Seq<char>> {
        self.names.deep_view()
    }

    /// The matcher source the expression was compiled to.
    pub closed spec fn source_view(&self) -> Seq<char> {
        self.source@
    }

    /// The compiled matcher really is the compiled form of the kept
    /// source text.
    pub closed spec fn wf(&self) -> bool {
        regex_source(self.regex) == self.source@
    }

    /// Compiles a template string. The grammar, in pseudo-EBNF:
    ///
    /// ```text
    /// template = { "/" segment } ["/"] .
    /// segment  = "{" Name "}" | "{" Name ":" Pattern "}"
    /// ```
    ///
    /// where `Name` is a path identifier and `Pattern` an unanchored
    /// sub-pattern. Literal text is not escaped before it reaches the
    /// matcher engine, so matcher metacharacters in it corrupt matching.
    pub fn from_template(template: &str) -> (r: Result<Expression, TemplateError>)
        ensures
            match spec_compile(template@) {
                Err(e) => r matches Err(re) && re == e,
                Ok(sp) => (r is Ok <==> regex_compiles(sp.0)) && match r {
                    Ok(expr) => expr.wf() && expr.source_view() == sp.0 && expr.names_view()
                        == sp.1,
                    Err(re) => re == TemplateError::BadPattern,
                },
            },
    {
        let (src, names) = match build_matcher(template) {
            Ok(p) => p,
            Err(e) => {
                return Err(e);
            },
        };
        match regex_new(src.as_str()) {
            Ok(re) => Ok(Expression { names, source: src, regex: re }),
            Err(_) => Err(TemplateError::BadPattern),
        }
    }

    /// Whether this route expression matches the path.
    pub fn is_match(&self, path: &str) -> (r: bool)
        requires
            self.wf(),
        ensures
            r == regex_match(self.source_view(), path@),
    {
        regex_is_match(&self.regex, path)
    }

    /// The named captures of the path: parameters whose groups matched,
    /// under their names; empty when the path does not match at all.
    pub fn map_path(&self, path: &str) -> (r: MatchContext)
        requires
            self.wf(),
        ensures
            r@ == spec_map_path(self.names_view(), self.source_view(), path@),
    {
        let mut results: MatchContext = StrAssoc::new();
        let n: usize = self.names.len();
        match regex_capture_list(&self.regex, path, n) {
            None => results,
            Some(groups) => {
                let mut idx: usize = 0;
                proof {
                    assert(self.names_view().take(0) =~= Seq::<Seq<char>>::empty());
                }
                while idx < n
                    invariant
                        idx <= n,
                        n == self.names@.len(),
                        n == self.names_view().len(),
                        forall|l: int|
                            0 <= l < n ==> #[trigger] self.names_view()[l] == self.names@[l]@,
                        groups@.len() == n,
                        forall|l: int|
                            0 <= l < n ==> crate::re::opt_string_view(#[trigger] groups@[l])
                                == regex_group(self.source_view(), path@, l + 1),
                        results@ == mc_fold(
                            self.names_view().take(idx as int),
                            self.source_view(),
                            path@,
                        ),
                    decreases n - idx,
                {
                    proof {
                        assert(self.names_view().take(idx + 1).drop_last()
                            =~= self.names_view().take(idx as int));
                        assert(self.names_view().take(idx + 1).last() == self.names_view()[
                            idx as int
                        ]);
                    }
                    match &groups[idx] {
                        Some(binding) => {
                            results.insert(self.names[idx].clone(), binding.clone());
                        },
                        None => {},
                    }
                    idx += 1;
                }
                proof {
                    assert(self.names_view().take(n as int) =~= self.names_view());
                }
                results
            },
        }
    }
}

} // verus!
