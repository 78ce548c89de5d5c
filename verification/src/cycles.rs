//! What the resolution comes to in simple catalogs: a single template, a
//! reference to another bookmark, a reference to something that is missing,
//! and a reference to a bookmark that was expanded before, on the same path
//! or on another.

use crate::bookmark::BookmarkView;
use crate::resolve::{
    bookmark_prefix, command_of, find_bookmark, joined_lines, lemma_failure_persists,
    lemma_find_bookmark, lemma_unvisited_drops, macro_prefix, rendered_line, resolved_lines,
    separator, submits, submitted, token_of, unvisited, with_line, ConfigView, Failure, Token,
};
use crate::template::{may_recurse, rendered};
use crate::text::{joined, lemma_trimmed_keeps_clean_ends, white_space};
use vstd::prelude::*;

verus! {

/// The line that refers to the bookmark `name`.
pub open spec fn bookmark_reference(name: Seq<char>) -> Seq<char> {
    bookmark_prefix() + name
}

/// The line that refers to the shared command `key`.
pub open spec fn macro_reference(key: Seq<char>) -> Seq<char> {
    macro_prefix() + key
}

/// A line made of the bookmark prefix and a name is read as a reference to
/// the bookmark of that name.
pub proof fn lemma_bookmark_reference_is_read(name: Seq<char>)
    ensures
        token_of(bookmark_reference(name)) == Token::Bookmark(name),
{
    let line = bookmark_reference(name);
    assert(line.skip(bookmark_prefix().len() as int) =~= name);
}

/// A line made of the prefix of shared commands and a key is read as a
/// reference to the shared command of that key.
pub proof fn lemma_macro_reference_is_read(key: Seq<char>)
    ensures
        token_of(macro_reference(key)) == Token::Macro(key),
{
    let line = macro_reference(key);
    reveal_strlit("bookmark::");
    reveal_strlit("cmd::");
    assert(line.skip(macro_prefix().len() as int) =~= key);
    if bookmark_prefix().is_prefix_of(line) {
        assert(line[0] == bookmark_prefix()[0]);
    }
}

/// The outcome of the line at position `k` decides where the lines before
/// it resolve: a missing shared command, a missing bookmark, or a bookmark
/// that was expanded before, fails the whole list with that failure.
pub proof fn lemma_first_bad_reference_fails(
    config: ConfigView,
    vars: Map<Seq<char>, Seq<char>>,
    cmds: Seq<Seq<char>>,
    visited: Set<Seq<char>>,
    k: int,
)
    requires
        0 <= k < cmds.len(),
        resolved_lines(config, vars, cmds.take(k), visited).0 is Ok,
    ensures
        token_of(cmds[k]) matches Token::Macro(key) ==> !config.cmds.contains_key(key)
            ==> resolved_lines(config, vars, cmds, visited).0 == Err::<Seq<Seq<char>>, Failure>(
            Failure::MacroNotFound(key),
        ),
        token_of(cmds[k]) matches Token::Bookmark(name) ==> find_bookmark(config.bookmarks, name)
            is None ==> resolved_lines(config, vars, cmds, visited).0 == Err::<
            Seq<Seq<char>>,
            Failure,
        >(Failure::BookmarkNotFound(name)),
        token_of(cmds[k]) matches Token::Bookmark(name) ==> find_bookmark(config.bookmarks, name)
            is Some ==> visited.union(
            resolved_lines(config, vars, cmds.take(k), visited).1,
        ).contains(name) ==> resolved_lines(config, vars, cmds, visited).0 == Err::<
            Seq<Seq<char>>,
            Failure,
        >(Failure::CircularDependency(name)),
{
    let upto = cmds.take(k + 1);
    assert(upto.drop_last() =~= cmds.take(k));
    match token_of(cmds[k]) {
        Token::Bookmark(name) => {
            lemma_find_bookmark(config.bookmarks, name);
        },
        _ => {},
    }
    if resolved_lines(config, vars, upto, visited).0 is Err {
        lemma_failure_persists(config, vars, cmds, visited, k + 1);
    }
}

/// What a reference to a bookmark adds to the lines before it, where the
/// bookmark is found and was not expanded before: its own lines, resolved
/// under its variables overlaid by those in force and joined into one line.
pub proof fn lemma_reference_step(
    config: ConfigView,
    vars: Map<Seq<char>, Seq<char>>,
    cmds: Seq<Seq<char>>,
    visited: Set<Seq<char>>,
    name: Seq<char>,
    i: int,
)
    requires
        cmds.len() > 0,
        resolved_lines(config, vars, cmds.drop_last(), visited).0 is Ok,
        token_of(cmds.last()) == Token::Bookmark(name),
        find_bookmark(config.bookmarks, name) == Some(i),
        !visited.union(resolved_lines(config, vars, cmds.drop_last(), visited).1).contains(
            config.bookmarks[i].name,
        ),
    ensures
        ({
            let (earlier, seen) = resolved_lines(config, vars, cmds.drop_last(), visited);
            let target = config.bookmarks[i];
            let (inner, below) = resolved_lines(
                config,
                target.vars.union_prefer_right(vars),
                target.cmds,
                visited.union(seen).insert(target.name),
            );
            resolved_lines(config, vars, cmds, visited) == (
                with_line(earlier->Ok_0, joined_lines(inner)),
                seen.union(below).insert(target.name),
            )
        }),
{
}

/// No lines resolve to no lines and expand nothing.
pub proof fn lemma_no_lines(
    config: ConfigView,
    vars: Map<Seq<char>, Seq<char>>,
    visited: Set<Seq<char>>,
)
    ensures
        resolved_lines(config, vars, Seq::empty(), visited) == (
            Ok::<Seq<Seq<char>>, Failure>(Seq::empty()),
            Set::<Seq<char>>::empty(),
        ),
{
}

/// A bookmark with one template resolves to that template, rendered with
/// the global variables overlaid by its own.
pub proof fn lemma_single_template(
    config: ConfigView,
    bookmark: BookmarkView,
    template: Seq<char>,
    default_submit: bool,
)
    requires
        bookmark.cmds == seq![template],
        token_of(template) == Token::Literal(template),
    ensures
        command_of(config, bookmark, default_submit) == submitted(
            rendered_line(config, bookmark.vars, template),
            submits(bookmark, default_submit),
        ),
{
    let visited = Set::<Seq<char>>::empty().insert(bookmark.name);
    assert(bookmark.cmds.drop_last() =~= Seq::empty());
    lemma_no_lines(config, bookmark.vars, visited);
}

/// Where the engine renders the one template of a bookmark to a text that
/// neither begins nor ends with white space, that text is the command: so
/// a template that renders to `echo hi` gives the command `echo hi`.
pub proof fn lemma_rendered_text_is_the_command(
    config: ConfigView,
    bookmark: BookmarkView,
    template: Seq<char>,
    text: Seq<char>,
)
    requires
        bookmark.cmds == seq![template],
        token_of(template) == Token::Literal(template),
        !may_recurse(template),
        rendered(template, config.vars.union_prefer_right(bookmark.vars)) == Some(text),
        text.len() > 0 ==> !white_space(text[0]) && !white_space(text.last()),
    ensures
        command_of(config, bookmark, false) == submitted(
            Ok::<Seq<char>, Failure>(text),
            submits(bookmark, false),
        ),
        bookmark.auto_submit != Some(true) ==> command_of(config, bookmark, false) == Ok::<
            Seq<char>,
            Failure,
        >(text),
{
    lemma_single_template(config, bookmark, template, false);
    lemma_trimmed_keeps_clean_ends(text);
}

/// A reference expands to the lines of the bookmark referred to, rendered
/// with that bookmark's variables overlaid by those of the bookmark that
/// refers to it: here for a reference to a bookmark with one template.
pub proof fn lemma_reference_uses_the_callers_variables(
    config: ConfigView,
    caller: BookmarkView,
    i: int,
    template: Seq<char>,
    default_submit: bool,
)
    requires
        0 <= i < config.bookmarks.len(),
        caller.name != config.bookmarks[i].name,
        find_bookmark(config.bookmarks, config.bookmarks[i].name) == Some(i),
        caller.cmds == seq![bookmark_reference(config.bookmarks[i].name)],
        config.bookmarks[i].cmds == seq![template],
        token_of(template) == Token::Literal(template),
    ensures
        command_of(config, caller, default_submit) == submitted(
            rendered_line(
                config,
                config.bookmarks[i].vars.union_prefer_right(caller.vars),
                template,
            ),
            submits(caller, default_submit),
        ),
{
    let target = config.bookmarks[i];
    let none = Set::<Seq<char>>::empty();
    let at_caller = none.insert(caller.name);
    let at_target = at_caller.union(none).insert(target.name);
    let vars = target.vars.union_prefer_right(caller.vars);
    lemma_bookmark_reference_is_read(target.name);
    lemma_no_lines(config, caller.vars, at_caller);
    lemma_reference_step(config, caller.vars, caller.cmds, at_caller, target.name, i);
    assert(target.cmds.drop_last() =~= Seq::empty());
    lemma_no_lines(config, vars, at_target);
}

/// A bookmark whose only line refers to a shared command that the table
/// does not have resolves to the failure that names the key.
pub proof fn lemma_missing_macro_fails(
    config: ConfigView,
    bookmark: BookmarkView,
    key: Seq<char>,
    default_submit: bool,
)
    requires
        bookmark.cmds == seq![macro_reference(key)],
        !config.cmds.contains_key(key),
    ensures
        command_of(config, bookmark, default_submit) == Err::<Seq<char>, Failure>(
            Failure::MacroNotFound(key),
        ),
{
    lemma_macro_reference_is_read(key);
    let visited = Set::<Seq<char>>::empty().insert(bookmark.name);
    lemma_first_bad_reference_fails(config, bookmark.vars, bookmark.cmds, visited, 0);
}

/// Two bookmarks that refer to each other: resolving the first fails as
/// circular, with the name of the first, which the second leads back to.
pub proof fn lemma_mutual_references_fail(
    config: ConfigView,
    a: int,
    b: int,
    default_submit: bool,
)
    requires
        0 <= a < config.bookmarks.len(),
        0 <= b < config.bookmarks.len(),
        config.bookmarks[a].name != config.bookmarks[b].name,
        find_bookmark(config.bookmarks, config.bookmarks[a].name) == Some(a),
        find_bookmark(config.bookmarks, config.bookmarks[b].name) == Some(b),
        config.bookmarks[a].cmds == seq![bookmark_reference(config.bookmarks[b].name)],
        config.bookmarks[b].cmds == seq![bookmark_reference(config.bookmarks[a].name)],
    ensures
        command_of(config, config.bookmarks[a], default_submit) == Err::<Seq<char>, Failure>(
            Failure::CircularDependency(config.bookmarks[a].name),
        ),
{
    let first = config.bookmarks[a];
    let second = config.bookmarks[b];
    lemma_bookmark_reference_is_read(first.name);
    lemma_bookmark_reference_is_read(second.name);
    let at_first = Set::<Seq<char>>::empty().insert(first.name);
    let at_second = at_first.union(Set::empty()).insert(second.name);
    // the line of the second bookmark leads back to the first
    let inner_vars = second.vars.union_prefer_right(first.vars);
    lemma_no_lines(config, inner_vars, at_second);
    lemma_first_bad_reference_fails(config, inner_vars, second.cmds, at_second, 0);
    // so the line of the first bookmark fails with it
    lemma_no_lines(config, first.vars, at_first);
    lemma_reference_step(config, first.vars, first.cmds, at_first, second.name, b);
}

/// Lines without references to bookmarks expand no bookmark.
pub proof fn lemma_plain_lines_expand_nothing(
    config: ConfigView,
    vars: Map<Seq<char>, Seq<char>>,
    cmds: Seq<Seq<char>>,
    visited: Set<Seq<char>>,
)
    requires
        forall|i: int| 0 <= i < cmds.len() ==> !(token_of(#[trigger] cmds[i]) is Bookmark),
    ensures
        resolved_lines(config, vars, cmds, visited).1 == Set::<Seq<char>>::empty(),
    decreases cmds.len(),
{
    if cmds.len() > 0 {
        let front = cmds.drop_last();
        lemma_plain_lines_expand_nothing(config, vars, front, visited);
    }
}

/// `name` is the name of a bookmark of the catalog.
pub open spec fn names_a_bookmark(config: ConfigView, name: Seq<char>) -> bool {
    exists|i: int| 0 <= i < config.bookmarks.len() && (#[trigger] config.bookmarks[i]).name == name
}

/// The bookmarks that a resolution expands are bookmarks of the catalog and
/// were not visited before: no bookmark is expanded twice, and a resolution
/// expands no more bookmarks than the catalog has.
pub proof fn lemma_expanded_once(
    config: ConfigView,
    vars: Map<Seq<char>, Seq<char>>,
    cmds: Seq<Seq<char>>,
    visited: Set<Seq<char>>,
)
    ensures
        forall|name: Seq<char>|
            #[trigger] resolved_lines(config, vars, cmds, visited).1.contains(name)
                ==> !visited.contains(name) && names_a_bookmark(config, name),
    decreases unvisited(config.bookmarks, visited), cmds.len(),
{
    if cmds.len() > 0 {
        let (earlier, seen) = resolved_lines(config, vars, cmds.drop_last(), visited);
        lemma_expanded_once(config, vars, cmds.drop_last(), visited);
        match earlier {
            Err(_) => {},
            Ok(lines) => match token_of(cmds.last()) {
                Token::Bookmark(name) => match find_bookmark(config.bookmarks, name) {
                    None => {},
                    Some(i) => {
                        let target = config.bookmarks[i];
                        let reached = visited.union(seen);
                        lemma_find_bookmark(config.bookmarks, name);
                        if !reached.contains(target.name) {
                            lemma_unvisited_drops(
                                config.bookmarks,
                                visited,
                                reached.insert(target.name),
                                i,
                            );
                            lemma_expanded_once(
                                config,
                                target.vars.union_prefer_right(vars),
                                target.cmds,
                                reached.insert(target.name),
                            );
                            let below = resolved_lines(
                                config,
                                target.vars.union_prefer_right(vars),
                                target.cmds,
                                reached.insert(target.name),
                            ).1;
                            assert forall|n: Seq<char>| #[trigger]
                                seen.union(below).insert(target.name).contains(n) implies !visited.contains(
                                n,
                            ) && names_a_bookmark(config, n) by {
                                if n == target.name {
                                    assert(config.bookmarks[i].name == n);
                                } else if below.contains(n) {
                                    assert(!reached.insert(target.name).contains(n));
                                }
                            }
                        }
                    },
                },
                _ => {},
            },
        }
    }
}

/// A bookmark may be expanded once in a resolution, on whatever path. Let
/// the bookmark at `a` refer to those at `b` and `c`, and let each of these
/// refer to the one at `d`, whose own lines refer to no bookmark and resolve.
/// Then resolving the bookmark at `a` fails as circular at the second
/// reference to the bookmark at `d`, though no path leads round.
pub proof fn lemma_second_visit_fails(
    config: ConfigView,
    a: int,
    b: int,
    c: int,
    d: int,
    default_submit: bool,
)
    requires
        0 <= a < config.bookmarks.len(),
        0 <= b < config.bookmarks.len(),
        0 <= c < config.bookmarks.len(),
        0 <= d < config.bookmarks.len(),
        config.bookmarks[a].name != config.bookmarks[b].name,
        config.bookmarks[a].name != config.bookmarks[c].name,
        config.bookmarks[a].name != config.bookmarks[d].name,
        config.bookmarks[b].name != config.bookmarks[c].name,
        config.bookmarks[b].name != config.bookmarks[d].name,
        config.bookmarks[c].name != config.bookmarks[d].name,
        find_bookmark(config.bookmarks, config.bookmarks[b].name) == Some(b),
        find_bookmark(config.bookmarks, config.bookmarks[c].name) == Some(c),
        find_bookmark(config.bookmarks, config.bookmarks[d].name) == Some(d),
        config.bookmarks[a].cmds == seq![
            bookmark_reference(config.bookmarks[b].name),
            bookmark_reference(config.bookmarks[c].name),
        ],
        config.bookmarks[b].cmds == seq![bookmark_reference(config.bookmarks[d].name)],
        config.bookmarks[c].cmds == seq![bookmark_reference(config.bookmarks[d].name)],
        forall|i: int|
            0 <= i < config.bookmarks[d].cmds.len() ==> !(token_of(
                #[trigger] config.bookmarks[d].cmds[i],
            ) is Bookmark),
        resolved_lines(
            config,
            config.bookmarks[d].vars.union_prefer_right(
                config.bookmarks[b].vars.union_prefer_right(config.bookmarks[a].vars),
            ),
            config.bookmarks[d].cmds,
            Set::<Seq<char>>::empty().insert(config.bookmarks[a].name).insert(
                config.bookmarks[b].name,
            ).insert(config.bookmarks[d].name),
        ).0 is Ok,
    ensures
        command_of(config, config.bookmarks[a], default_submit) == Err::<Seq<char>, Failure>(
            Failure::CircularDependency(config.bookmarks[d].name),
        ),
{
    let root = config.bookmarks[a];
    let left = config.bookmarks[b];
    let right = config.bookmarks[c];
    let shared = config.bookmarks[d];
    lemma_bookmark_reference_is_read(left.name);
    lemma_bookmark_reference_is_read(right.name);
    lemma_bookmark_reference_is_read(shared.name);
    let none = Set::<Seq<char>>::empty();
    let at_root = none.insert(root.name);
    let at_left = at_root.insert(left.name);
    let at_shared = at_left.insert(shared.name);
    let left_vars = left.vars.union_prefer_right(root.vars);
    let shared_vars = shared.vars.union_prefer_right(left_vars);

    // the shared bookmark, reached through the left one
    lemma_plain_lines_expand_nothing(config, shared_vars, shared.cmds, at_shared);

    // the left bookmark
    lemma_no_lines(config, left_vars, at_left);
    assert(at_left.union(none) =~= at_left);
    lemma_reference_step(config, left_vars, left.cmds, at_left, shared.name, d);

    // the first line of the root
    let first = root.cmds.take(1);
    lemma_no_lines(config, root.vars, at_root);
    assert(at_root.union(none) =~= at_root);
    lemma_reference_step(config, root.vars, first, at_root, left.name, b);
    let first_lines = resolved_lines(config, root.vars, first, at_root);

    // the second line of the root reaches the right bookmark, whose line
    // leads to the shared bookmark again
    let reached = at_root.union(first_lines.1);
    let at_right = reached.insert(right.name);
    let right_vars = right.vars.union_prefer_right(root.vars);
    lemma_no_lines(config, right_vars, at_right);
    lemma_first_bad_reference_fails(config, right_vars, right.cmds, at_right, 0);
    lemma_reference_step(config, root.vars, root.cmds, at_root, right.name, c);
}

} // verus!
