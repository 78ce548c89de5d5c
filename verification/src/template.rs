//! Rendering a template with variables. The rendering itself is the work of
//! the template engine; this module decides which templates are handed to
//! it. A template in which a partial is included inside the definition of a
//! partial could include itself without end, so such a template is refused.

use crate::text::chars_of;
use crate::vars::VarMap;
use handlebars::Handlebars;
use std::collections::BTreeMap;
use vstd::prelude::*;

verus! {

/// The text that `Handlebars::render_template` renders on a registry fresh
/// from `Handlebars::new`, for a template and a map of variables; `None`
/// where the rendering fails. What the error of a failed rendering says is
/// not part of this: the engine may name one or another cause of the same
/// failure.
pub uninterp spec fn rendered(template: Seq<char>, vars: Map<Seq<char>, Seq<char>>) -> Option<
    Seq<char>,
>;

/// A character that the engine skips between the parts of a tag.
pub open spec fn blank(c: char) -> bool {
    c == ' ' || c == '\t' || c == '\n' || c == '\r'
}

/// `s` without its leading blanks.
pub open spec fn skip_blanks(s: Seq<char>) -> Seq<char>
    decreases s.len(),
{
    if s.len() > 0 && blank(s[0]) {
        skip_blanks(s.drop_first())
    } else {
        s
    }
}

/// `s` without the character `c` at its beginning, if it begins with it.
pub open spec fn skip_optional(s: Seq<char>, c: char) -> Seq<char> {
    if s.len() > 0 && s[0] == c {
        s.drop_first()
    } else {
        s
    }
}

/// What follows the opening braces of a tag begins with `mark`, after an
/// optional `~` and an optional `#`, with blanks anywhere between them.
pub open spec fn mark_follows(s: Seq<char>, mark: char) -> bool {
    let after_tilde = skip_blanks(skip_optional(skip_blanks(s), '~'));
    let after_hash = skip_blanks(skip_optional(after_tilde, '#'));
    after_hash.len() > 0 && after_hash[0] == mark
}

/// A tag with the mark `mark` opens at position `i` of the template.
pub open spec fn tag_at(template: Seq<char>, i: int, mark: char) -> bool {
    &&& 0 <= i
    &&& i + 2 <= template.len()
    &&& template[i] == '{'
    &&& template[i + 1] == '{'
    &&& mark_follows(template.skip(i + 2), mark)
}

/// A tag with the mark `mark` opens somewhere in the template.
pub open spec fn has_tag(template: Seq<char>, mark: char) -> bool {
    exists|i: int| tag_at(template, i, mark)
}

/// An including tag stands between a defining tag and a closing tag: at
/// `i`, with the defining tag at `d` and the closing tag at `c`.
pub open spec fn include_inside(template: Seq<char>, d: int, i: int, c: int) -> bool {
    &&& d < i < c
    &&& tag_at(template, d, '*')
    &&& tag_at(template, i, '>')
    &&& tag_at(template, c, '/')
}

/// Somewhere in the template a partial is included after a defining tag
/// and before a closing tag, so that it may stand inside the definition of
/// a partial, and a partial could then include itself, directly or through
/// another.
pub open spec fn may_recurse(template: Seq<char>) -> bool {
    exists|d: int, i: int, c: int| #[trigger] include_inside(template, d, i, c)
}

/// The detail of the error for a template that is refused.
pub open spec fn refusal() -> Seq<char> {
    "templates whose partials include partials are not supported"@
}

/// The text that rendering a template gives: none for a template that is
/// refused because it may recurse, else what the engine renders.
pub open spec fn guarded(template: Seq<char>, vars: Map<Seq<char>, Seq<char>>) -> Option<
    Seq<char>,
> {
    if may_recurse(template) {
        None
    } else {
        rendered(template, vars)
    }
}

/// `Handlebars::render_template`, called on a registry fresh from
/// `Handlebars::new` with the template and the variables as a map from text
/// to text. The contract names the rendered text and says nothing more
/// about it: the same template and variables always render, with the same
/// text, or always fail. Of the text of the error nothing is claimed: the
/// engine walks the named arguments of a tag in no fixed order and reports
/// the first that fails.
/// A fresh registry holds no partials, so a template can only recurse
/// through a partial that it defines itself and whose definition includes
/// a partial. A definition lies between a defining tag and a closing tag;
/// templates with an including tag between two such tags are left out.
#[verifier::external_body]
fn render_template(template: &str, vars: &VarMap) -> (r: Result<String, String>)
    requires
        !may_recurse(template@),
    ensures
        match r {
            Ok(text) => rendered(template@, vars@) == Some(text@),
            Err(_) => rendered(template@, vars@) is None,
        },
{
    let data: BTreeMap<&str, &str> = vars.pairs().iter().map(
        |entry| (entry.0.as_str(), entry.1.as_str()),
    ).collect();
    match Handlebars::new().render_template(template, &data) {
        Ok(text) => Ok(text),
        Err(e) => Err(e.to_string()),
    }
}

proof fn lemma_skip_blanks(s: Seq<char>, k: int)
    requires
        0 <= k <= s.len(),
        forall|i: int| 0 <= i < k ==> blank(s[i]),
        k == s.len() || !blank(s[k]),
    ensures
        skip_blanks(s) == s.skip(k),
    decreases k,
{
    if k > 0 {
        lemma_skip_blanks(s.drop_first(), k - 1);
    }
}

fn is_blank(c: char) -> (r: bool)
    ensures
        r == blank(c),
{
    c == ' ' || c == '\t' || c == '\n' || c == '\r'
}

fn after_blanks(chars: &Vec<char>, from: usize) -> (to: usize)
    requires
        from <= chars@.len(),
    ensures
        from <= to <= chars@.len(),
        skip_blanks(chars@.skip(from as int)) == chars@.skip(to as int),
{
    let mut to: usize = from;
    while to < chars.len() && is_blank(chars[to])
        invariant
            from <= to <= chars@.len(),
            forall|i: int| from <= i < to ==> blank(chars@[i]),
        decreases chars@.len() - to,
    {
        to += 1;
    }
    proof {
        let rest = chars@.skip(from as int);
        lemma_skip_blanks(rest, to - from);
    }
    to
}

fn after_optional(chars: &Vec<char>, from: usize, c: char) -> (to: usize)
    requires
        from <= chars@.len(),
    ensures
        from <= to <= chars@.len(),
        skip_optional(chars@.skip(from as int), c) == chars@.skip(to as int),
{
    if from < chars.len() && chars[from] == c {
        from + 1
    } else {
        from
    }
}

fn mark_follows_at(chars: &Vec<char>, from: usize, mark: char) -> (r: bool)
    requires
        from <= chars@.len(),
    ensures
        r == mark_follows(chars@.skip(from as int), mark),
{
    let a = after_blanks(chars, from);
    let b = after_optional(chars, a, '~');
    let c = after_blanks(chars, b);
    let d = after_optional(chars, c, '#');
    let e = after_blanks(chars, d);
    e < chars.len() && chars[e] == mark
}

fn tag_here(chars: &Vec<char>, i: usize, mark: char) -> (r: bool)
    ensures
        r == tag_at(chars@, i as int, mark),
{
    if chars.len() < 2 || i > chars.len() - 2 {
        return false;
    }
    chars[i] == '{' && chars[i + 1] == '{' && mark_follows_at(chars, i + 2, mark)
}

fn first_tag(chars: &Vec<char>, mark: char, from: usize, to: usize) -> (r: Option<usize>)
    requires
        from <= to <= chars@.len(),
    ensures
        match r {
            Some(k) => from <= k < to && tag_at(chars@, k as int, mark) && forall|j: int|
                from <= j < k ==> !tag_at(chars@, j, mark),
            None => forall|j: int| from <= j < to ==> !tag_at(chars@, j, mark),
        },
{
    let mut k: usize = from;
    while k < to
        invariant
            from <= k <= to <= chars@.len(),
            forall|j: int| from <= j < k ==> !tag_at(chars@, j, mark),
        decreases to - k,
    {
        if tag_here(chars, k, mark) {
            return Some(k);
        }
        k += 1;
    }
    None
}

fn last_tag(chars: &Vec<char>, mark: char) -> (r: Option<usize>)
    ensures
        match r {
            Some(k) => tag_at(chars@, k as int, mark) && forall|j: int|
                k < j ==> !tag_at(chars@, j, mark),
            None => forall|j: int| !tag_at(chars@, j, mark),
        },
{
    let mut k: usize = chars.len();
    while k > 0
        invariant
            k <= chars@.len(),
            forall|j: int| k <= j ==> !tag_at(chars@, j, mark),
        decreases k,
    {
        k -= 1;
        if tag_here(chars, k, mark) {
            return Some(k);
        }
    }
    None
}

/// Whether a tag with the mark `mark` opens somewhere in the template.
pub fn find_tag(template: &str, mark: char) -> (found: bool)
    ensures
        found == has_tag(template@, mark),
{
    let chars = chars_of(template);
    let found = first_tag(&chars, mark, 0, chars.len());
    proof {
        if has_tag(template@, mark) {
            let i = choose|i: int| tag_at(template@, i, mark);
            assert(0 <= i < chars@.len());
        }
    }
    found.is_some()
}

/// Whether a partial is included between a defining tag and a closing tag.
pub fn recursion_possible(template: &str) -> (possible: bool)
    ensures
        possible == may_recurse(template@),
{
    let chars = chars_of(template);
    let defined = first_tag(&chars, '*', 0, chars.len());
    let closed = last_tag(&chars, '/');
    match (defined, closed) {
        (Some(d), Some(c)) => {
            if c <= d {
                assert forall|x: int, i: int, y: int| !#[trigger] include_inside(
                    template@,
                    x,
                    i,
                    y,
                ) by {}
                return false;
            }
            let included = first_tag(&chars, '>', d + 1, c);
            proof {
                match included {
                    Some(i) => {
                        assert(include_inside(template@, d as int, i as int, c as int));
                    },
                    None => {
                        assert forall|x: int, i: int, y: int| !#[trigger] include_inside(
                            template@,
                            x,
                            i,
                            y,
                        ) by {}
                    },
                }
            }
            included.is_some()
        },
        _ => {
            assert forall|x: int, i: int, y: int| !#[trigger] include_inside(template@, x, i, y) by {}
            false
        },
    }
}

/// Renders `template` with the variables `vars`, unless the template may
/// recurse: it is then refused with an error of its own. The error of a
/// template that the engine fails to render carries the engine's text.
pub fn render(template: &str, vars: &VarMap) -> (r: Result<String, String>)
    ensures
        match r {
            Ok(text) => guarded(template@, vars@) == Some(text@),
            Err(detail) => guarded(template@, vars@) is None && (may_recurse(template@)
                ==> detail@ == refusal()),
        },
{
    if recursion_possible(template) {
        return Err("templates whose partials include partials are not supported".to_string());
    }
    render_template(template, vars)
}

} // verus!
