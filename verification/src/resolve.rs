//! Command resolution: a bookmark's command lines are expanded into one
//! command text. A line is a template, a reference to another bookmark or a
//! reference to a shared command; templates are rendered with the variables
//! in force, references are followed, and the resulting lines are joined.

use crate::bookmark::{bookmark_views, Bookmark, BookmarkView, Config};
use crate::text::{join, joined, same_text, strip_prefix, trim, trimmed, views_of};
use crate::template::{guarded, may_recurse, refusal, render};
use crate::vars::VarMap;
use vstd::hash_set::StringHashSet;
use vstd::prelude::*;
use vstd::string::StringExecFns;

verus! {

/// Why a resolution failed.
#[derive(Debug)]
pub enum ResolutionError {
    /// A line refers to a bookmark that the catalog does not have.
    BookmarkNotFound(String),
    /// A line refers to a shared command that the table does not have.
    MacroNotFound(String),
    /// A bookmark was reached a second time during one resolution.
    CircularDependency(String),
    /// A template could not be rendered.
    TemplateRenderError(String),
}

/// Why a resolution failed, as mathematical values. Of a template that
/// could not be rendered only the fact is kept: the text that comes with it
/// is the template engine's and is not fixed by the template.
pub enum Failure {
    BookmarkNotFound(Seq<char>),
    MacroNotFound(Seq<char>),
    CircularDependency(Seq<char>),
    TemplateRenderError,
}

impl Failure {
    /// The message shown for the failure. `detail` is the text that came
    /// with a rendering error; the other failures do not look at it.
    pub open spec fn message(self, detail: Seq<char>) -> Seq<char> {
        match self {
            Failure::BookmarkNotFound(name) => "Bookmark '"@ + name + "' not found"@,
            Failure::MacroNotFound(key) => "Command key '"@ + key + "' not found in cmds"@,
            Failure::CircularDependency(name) => "Circular dependency detected for bookmark '"@
                + name + "'"@,
            Failure::TemplateRenderError => "Template rendering error: "@ + detail,
        }
    }
}

impl View for ResolutionError {
    type V = Failure;

    open spec fn view(&self) -> Failure {
        match self {
            ResolutionError::BookmarkNotFound(name) => Failure::BookmarkNotFound(name@),
            ResolutionError::MacroNotFound(key) => Failure::MacroNotFound(key@),
            ResolutionError::CircularDependency(name) => Failure::CircularDependency(name@),
            ResolutionError::TemplateRenderError(_) => Failure::TemplateRenderError,
        }
    }
}

impl ResolutionError {
    /// The text that came with a rendering error; empty for the other
    /// errors.
    pub open spec fn detail(&self) -> Seq<char> {
        match self {
            ResolutionError::TemplateRenderError(detail) => detail@,
            _ => Seq::empty(),
        }
    }

    /// The message shown for the error.
    pub fn message(&self) -> (text: String)
        ensures
            text@ == self@.message(self.detail()),
    {
        match self {
            ResolutionError::BookmarkNotFound(name) => {
                let mut text = "Bookmark '".to_string();
                text.append(name.as_str());
                text.append("' not found");
                text
            },
            ResolutionError::MacroNotFound(key) => {
                let mut text = "Command key '".to_string();
                text.append(key.as_str());
                text.append("' not found in cmds");
                text
            },
            ResolutionError::CircularDependency(name) => {
                let mut text = "Circular dependency detected for bookmark '".to_string();
                text.append(name.as_str());
                text.append("'");
                text
            },
            ResolutionError::TemplateRenderError(detail) => {
                let mut text = "Template rendering error: ".to_string();
                text.append(detail.as_str());
                text
            },
        }
    }
}

/// What a configuration holds, as mathematical values.
pub struct ConfigView {
    pub vars: Map<Seq<char>, Seq<char>>,
    pub cmds: Map<Seq<char>, Seq<char>>,
    pub bookmarks: Seq<BookmarkView>,
}

impl View for Config {
    type V = ConfigView;

    open spec fn view(&self) -> ConfigView {
        ConfigView {
            vars: self.vars@,
            cmds: self.cmds@,
            bookmarks: bookmark_views(self.bookmarks@),
        }
    }
}

/// What stands between the lines of a resolved command: a line
/// continuation, a line break and `&&`.
pub open spec fn separator() -> Seq<char> {
    " \\\n&& "@
}

/// What begins a line that refers to a bookmark.
pub open spec fn bookmark_prefix() -> Seq<char> {
    "bookmark::"@
}

/// What begins a line that refers to a shared command.
pub open spec fn macro_prefix() -> Seq<char> {
    "cmd::"@
}

/// A command line, read.
pub enum Token {
    /// A template.
    Literal(Seq<char>),
    /// A reference to the bookmark of this name.
    Bookmark(Seq<char>),
    /// A reference to the shared command of this key.
    Macro(Seq<char>),
}

/// How a command line is read: the bookmark prefix is looked for first,
/// the prefix of shared commands second.
pub open spec fn token_of(cmd: Seq<char>) -> Token {
    if bookmark_prefix().is_prefix_of(cmd) {
        Token::Bookmark(cmd.skip(bookmark_prefix().len() as int))
    } else if macro_prefix().is_prefix_of(cmd) {
        Token::Macro(cmd.skip(macro_prefix().len() as int))
    } else {
        Token::Literal(cmd)
    }
}

/// The position of the first bookmark called `name`, if there is one.
pub open spec fn find_bookmark(bookmarks: Seq<BookmarkView>, name: Seq<char>) -> Option<int>
    decreases bookmarks.len(),
{
    if bookmarks.len() == 0 {
        None
    } else {
        match find_bookmark(bookmarks.drop_last(), name) {
            Some(i) => Some(i),
            None => if bookmarks.last().name == name {
                Some(bookmarks.len() - 1)
            } else {
                None
            },
        }
    }
}

/// `find_bookmark` gives the first position with the name, and `None`
/// exactly when no bookmark has it.
pub proof fn lemma_find_bookmark(bookmarks: Seq<BookmarkView>, name: Seq<char>)
    ensures
        match find_bookmark(bookmarks, name) {
            Some(i) => 0 <= i < bookmarks.len() && bookmarks[i].name == name && forall|j: int|
                0 <= j < i ==> (#[trigger] bookmarks[j]).name != name,
            None => forall|j: int| 0 <= j < bookmarks.len() ==> (#[trigger] bookmarks[j]).name != name,
        },
    decreases bookmarks.len(),
{
    if bookmarks.len() > 0 {
        let front = bookmarks.drop_last();
        lemma_find_bookmark(front, name);
        match find_bookmark(front, name) {
            Some(i) => {
                assert forall|j: int| 0 <= j < i implies (#[trigger] bookmarks[j]).name != name by {
                    assert(front[j] == bookmarks[j]);
                }
            },
            None => {
                assert forall|j: int| 0 <= j < front.len() implies (#[trigger] bookmarks[j]).name
                    != name by {
                    assert(front[j] == bookmarks[j]);
                }
            },
        }
    }
}

/// The number of bookmarks whose name is not in `visited`.
pub open spec fn unvisited(bookmarks: Seq<BookmarkView>, visited: Set<Seq<char>>) -> nat
    decreases bookmarks.len(),
{
    if bookmarks.len() == 0 {
        0
    } else {
        unvisited(bookmarks.drop_last(), visited) + if visited.contains(bookmarks.last().name) {
            0nat
        } else {
            1nat
        }
    }
}

/// Visiting more names leaves no more bookmarks unvisited.
pub proof fn lemma_unvisited_shrinks(
    bookmarks: Seq<BookmarkView>,
    fewer: Set<Seq<char>>,
    more: Set<Seq<char>>,
)
    requires
        fewer.subset_of(more),
    ensures
        unvisited(bookmarks, more) <= unvisited(bookmarks, fewer),
    decreases bookmarks.len(),
{
    if bookmarks.len() > 0 {
        lemma_unvisited_shrinks(bookmarks.drop_last(), fewer, more);
    }
}

/// Visiting the name of a bookmark that was not visited before leaves fewer
/// bookmarks unvisited.
pub proof fn lemma_unvisited_drops(
    bookmarks: Seq<BookmarkView>,
    fewer: Set<Seq<char>>,
    more: Set<Seq<char>>,
    i: int,
)
    requires
        fewer.subset_of(more),
        0 <= i < bookmarks.len(),
        !fewer.contains(bookmarks[i].name),
        more.contains(bookmarks[i].name),
    ensures
        unvisited(bookmarks, more) < unvisited(bookmarks, fewer),
    decreases bookmarks.len(),
{
    let front = bookmarks.drop_last();
    if i == bookmarks.len() - 1 {
        lemma_unvisited_shrinks(front, fewer, more);
    } else {
        lemma_unvisited_drops(front, fewer, more, i);
    }
}

/// The line that a rendering gives: the rendered text without the white
/// space around it, or the failure where nothing was rendered.
pub open spec fn line_of(outcome: Option<Seq<char>>) -> Result<Seq<char>, Failure> {
    match outcome {
        Some(text) => Ok(trimmed(text)),
        None => Err(Failure::TemplateRenderError),
    }
}

/// The line that a template gives under a bookmark's variables: the global
/// variables are laid under the bookmark's, and the template is rendered
/// with the two together.
pub open spec fn rendered_line(
    config: ConfigView,
    vars: Map<Seq<char>, Seq<char>>,
    template: Seq<char>,
) -> Result<Seq<char>, Failure> {
    line_of(guarded(template, config.vars.union_prefer_right(vars)))
}

/// `lines` with one more line, or the failure to get that line.
pub open spec fn with_line(lines: Seq<Seq<char>>, line: Result<Seq<char>, Failure>) -> Result<
    Seq<Seq<char>>,
    Failure,
> {
    match line {
        Ok(text) => Ok(lines.push(text)),
        Err(failure) => Err(failure),
    }
}

/// The lines joined into one command.
pub open spec fn joined_lines(lines: Result<Seq<Seq<char>>, Failure>) -> Result<
    Seq<char>,
    Failure,
> {
    match lines {
        Ok(lines) => Ok(joined(lines, separator())),
        Err(failure) => Err(failure),
    }
}

/// The resolved lines of `cmds` under the variables `vars`, with the names
/// of the bookmarks that were expanded on the way. `visited` holds the names
/// expanded before; a reference to any of them, or to one expanded by an
/// earlier line, fails. The first failure ends the resolution.
pub open spec fn resolved_lines(
    config: ConfigView,
    vars: Map<Seq<char>, Seq<char>>,
    cmds: Seq<Seq<char>>,
    visited: Set<Seq<char>>,
) -> (Result<Seq<Seq<char>>, Failure>, Set<Seq<char>>)
    decreases unvisited(config.bookmarks, visited), cmds.len(),
{
    if cmds.len() == 0 {
        (Ok(Seq::empty()), Set::empty())
    } else {
        let (earlier, seen) = resolved_lines(config, vars, cmds.drop_last(), visited);
        match earlier {
            Err(failure) => (Err(failure), seen),
            Ok(lines) => match token_of(cmds.last()) {
                Token::Literal(template) => (
                    with_line(lines, rendered_line(config, vars, template)),
                    seen,
                ),
                Token::Macro(key) => if config.cmds.contains_key(key) {
                    (with_line(lines, rendered_line(config, vars, config.cmds[key])), seen)
                } else {
                    (Err(Failure::MacroNotFound(key)), seen)
                },
                Token::Bookmark(name) => match find_bookmark(config.bookmarks, name) {
                    None => (Err(Failure::BookmarkNotFound(name)), seen),
                    Some(i) => {
                        let target = config.bookmarks[i];
                        let reached = visited.union(seen);
                        if reached.contains(target.name) {
                            (Err(Failure::CircularDependency(target.name)), seen)
                        } else {
                            proof {
                                lemma_find_bookmark(config.bookmarks, name);
                                lemma_unvisited_drops(
                                    config.bookmarks,
                                    visited,
                                    reached.insert(target.name),
                                    i,
                                );
                            }
                            let (inner, below) = resolved_lines(
                                config,
                                target.vars.union_prefer_right(vars),
                                target.cmds,
                                reached.insert(target.name),
                            );
                            (
                                with_line(lines, joined_lines(inner)),
                                seen.union(below).insert(target.name),
                            )
                        }
                    },
                },
            },
        }
    }
}

/// The expansion of a bookmark: a failure if its name was visited before,
/// else its resolved lines joined into one text. The second part holds the
/// names expanded on the way, the bookmark's own among them.
pub open spec fn expanded(config: ConfigView, bookmark: BookmarkView, visited: Set<Seq<char>>) -> (
    Result<Seq<char>, Failure>,
    Set<Seq<char>>,
) {
    if visited.contains(bookmark.name) {
        (Err(Failure::CircularDependency(bookmark.name)), Set::empty())
    } else {
        let (lines, seen) = resolved_lines(
            config,
            bookmark.vars,
            bookmark.cmds,
            visited.insert(bookmark.name),
        );
        (joined_lines(lines), seen.insert(bookmark.name))
    }
}

/// Whether the command of a bookmark is submitted at once: the bookmark
/// says so, and where it does not, `default_submit` does.
pub open spec fn submits(bookmark: BookmarkView, default_submit: bool) -> bool {
    match bookmark.auto_submit {
        Some(choice) => choice,
        None => default_submit,
    }
}

/// The text of a command with a closing line break, where the command is
/// to be submitted at once.
pub open spec fn submitted(text: Result<Seq<char>, Failure>, submit: bool) -> Result<
    Seq<char>,
    Failure,
> {
    match text {
        Ok(t) => if submit {
            Ok(t.push('\n'))
        } else {
            Ok(t)
        },
        Err(failure) => Err(failure),
    }
}

/// The command that selecting a bookmark gives: its expansion, starting
/// with nothing visited, followed by a line break where the command is to be
/// submitted at once.
pub open spec fn command_of(config: ConfigView, bookmark: BookmarkView, default_submit: bool)
    -> Result<Seq<char>, Failure> {
    submitted(expanded(config, bookmark, Set::empty()).0, submits(bookmark, default_submit))
}

/// A result of the resolution, as mathematical values.
pub open spec fn outcome_view(r: Result<String, ResolutionError>) -> Result<Seq<char>, Failure> {
    match r {
        Ok(text) => Ok(text@),
        Err(e) => Err(e@),
    }
}

/// Where one of the first `k` bookmarks has the name, the search among all
/// of them ends at the same position as the search among the first `k`.
pub proof fn lemma_found_early(bookmarks: Seq<BookmarkView>, name: Seq<char>, k: int)
    requires
        0 <= k <= bookmarks.len(),
    ensures
        find_bookmark(bookmarks.take(k), name) is Some ==> find_bookmark(bookmarks, name)
            == find_bookmark(bookmarks.take(k), name),
    decreases bookmarks.len() - k,
{
    if k == bookmarks.len() {
        assert(bookmarks.take(k) =~= bookmarks);
    } else {
        assert(bookmarks.drop_last().take(k) =~= bookmarks.take(k));
        lemma_found_early(bookmarks.drop_last(), name, k);
    }
}

/// A failure among the first lines is the outcome of the whole list.
pub proof fn lemma_failure_persists(
    config: ConfigView,
    vars: Map<Seq<char>, Seq<char>>,
    cmds: Seq<Seq<char>>,
    visited: Set<Seq<char>>,
    k: int,
)
    requires
        0 <= k <= cmds.len(),
        resolved_lines(config, vars, cmds.take(k), visited).0 is Err,
    ensures
        resolved_lines(config, vars, cmds, visited) == resolved_lines(
            config,
            vars,
            cmds.take(k),
            visited,
        ),
    decreases cmds.len() - k,
{
    if k == cmds.len() {
        assert(cmds.take(k) =~= cmds);
    } else {
        assert(cmds.drop_last().take(k) =~= cmds.take(k));
        lemma_failure_persists(config, vars, cmds.drop_last(), visited, k);
    }
}

/// The line that a rendering gives: the rendered text without the white
/// space around it, or the error with the text of the rendering error.
pub fn finish_line(outcome: Result<String, String>) -> (r: Result<String, ResolutionError>)
    ensures
        outcome_view(r) == line_of(
            match outcome {
                Ok(text) => Some(text@),
                Err(_) => None,
            },
        ),
        outcome matches Err(detail) ==> (r matches Err(e) && e.detail() == detail@),
{
    match outcome {
        Ok(text) => Ok(trim(text.as_str()).to_string()),
        Err(detail) => Err(ResolutionError::TemplateRenderError(detail)),
    }
}

impl Config {
    /// The position of the first bookmark called `name`, if there is one.
    pub fn find(&self, name: &str) -> (r: Option<usize>)
        ensures
            match r {
                Some(i) => find_bookmark(self@.bookmarks, name@) == Some(i as int) && i
                    < self.bookmarks@.len(),
                None => find_bookmark(self@.bookmarks, name@) is None,
            },
    {
        let ghost all = self@.bookmarks;
        let mut i: usize = 0;
        while i < self.bookmarks.len()
            invariant
                i <= self.bookmarks@.len(),
                all == self@.bookmarks,
                find_bookmark(all.take(i as int), name@) is None,
            decreases self.bookmarks@.len() - i,
        {
            proof {
                let upto = all.take(i + 1);
                assert(upto.drop_last() =~= all.take(i as int));
                lemma_found_early(all, name@, i + 1);
            }
            if same_text(self.bookmarks[i].name.as_str(), name) {
                return Some(i);
            }
            i += 1;
        }
        assert(all.take(all.len() as int) =~= all);
        None
    }

    /// Renders `template` with the global variables overlaid by `vars`, and
    /// takes the white space off both ends of the result.
    pub fn gen_template_with_vars(&self, template: &str, vars: &VarMap) -> (r: Result<
        String,
        ResolutionError,
    >)
        ensures
            outcome_view(r) == rendered_line(self@, vars@, template@),
            may_recurse(template@) ==> (r matches Err(e) && e.detail() == refusal()),
    {
        let mut all = self.vars.clone();
        all.overlay(vars);
        finish_line(render(template, &all))
    }

    fn resolve_lines(&self, vars: &VarMap, cmds: &Vec<String>, processed: &mut StringHashSet) -> (r:
        Result<Vec<String>, ResolutionError>)
        ensures
            final(processed)@ == old(processed)@.union(
                resolved_lines(self@, vars@, views_of(cmds@), old(processed)@).1,
            ),
            match r {
                Ok(lines) => resolved_lines(self@, vars@, views_of(cmds@), old(processed)@).0
                    == Ok::<Seq<Seq<char>>, Failure>(views_of(lines@)),
                Err(e) => resolved_lines(self@, vars@, views_of(cmds@), old(processed)@).0
                    == Err::<Seq<Seq<char>>, Failure>(e@),
            },
        decreases unvisited(self@.bookmarks, old(processed)@), cmds@.len(),
    {
        let ghost config = self@;
        let ghost all = views_of(cmds@);
        let ghost visited = processed@;
        let mut lines: Vec<String> = Vec::new();
        let mut i: usize = 0;
        proof {
            assert(views_of(lines@) =~= Seq::empty());
        }
        while i < cmds.len()
            invariant
                i <= cmds@.len(),
                config == self@,
                all == views_of(cmds@),
                visited == old(processed)@,
                resolved_lines(config, vars@, all.take(i as int), visited).0 == Ok::<
                    Seq<Seq<char>>,
                    Failure,
                >(views_of(lines@)),
                processed@ == visited.union(
                    resolved_lines(config, vars@, all.take(i as int), visited).1,
                ),
            decreases cmds@.len() - i,
        {
            let ghost upto = all.take(i + 1);
            let ghost before = views_of(lines@);
            proof {
                assert(upto.drop_last() =~= all.take(i as int));
            }
            let cmd = cmds[i].as_str();
            let line: Result<String, ResolutionError> = match strip_prefix(cmd, "bookmark::") {
                Some(name) => {
                    match self.find(name) {
                        None => Err(ResolutionError::BookmarkNotFound(name.to_string())),
                        Some(j) => {
                            let target = &self.bookmarks[j];
                            proof {
                                lemma_find_bookmark(config.bookmarks, name@);
                            }
                            if processed.contains(target.name.as_str()) {
                                Err(ResolutionError::CircularDependency(target.name.clone()))
                            } else {
                                processed.insert(target.name.clone());
                                let mut merged = target.vars.clone();
                                merged.overlay(vars);
                                proof {
                                    lemma_unvisited_drops(
                                        config.bookmarks,
                                        visited,
                                        processed@,
                                        j as int,
                                    );
                                }
                                let inner = self.resolve_lines(&merged, &target.cmds, processed);
                                match inner {
                                    Ok(parts) => Ok(join(&parts, " \\\n&& ")),
                                    Err(e) => Err(e),
                                }
                            }
                        },
                    }
                },
                None => match strip_prefix(cmd, "cmd::") {
                    Some(key) => match self.cmds.get(key) {
                        Some(template) => self.gen_template_with_vars(template.as_str(), vars),
                        None => Err(ResolutionError::MacroNotFound(key.to_string())),
                    },
                    None => self.gen_template_with_vars(cmd, vars),
                },
            };
            match line {
                Ok(text) => {
                    lines.push(text);
                    assert(views_of(lines@) =~= before.push(text@));
                },
                Err(e) => {
                    proof {
                        lemma_failure_persists(config, vars@, all, visited, i + 1);
                    }
                    return Err(e);
                },
            }
            i += 1;
        }
        assert(all.take(cmds@.len() as int) =~= all);
        Ok(lines)
    }

    /// Expands `bookmark` into one text. `processed` holds the names of the
    /// bookmarks expanded so far and takes up those expanded here.
    pub fn gen_template_command(&self, bookmark: &Bookmark, processed: &mut StringHashSet) -> (r:
        Result<String, ResolutionError>)
        ensures
            outcome_view(r) == expanded(self@, bookmark@, old(processed)@).0,
            final(processed)@ == old(processed)@.union(
                expanded(self@, bookmark@, old(processed)@).1,
            ),
    {
        if processed.contains(bookmark.name.as_str()) {
            return Err(ResolutionError::CircularDependency(bookmark.name.clone()));
        }
        processed.insert(bookmark.name.clone());
        let lines = self.resolve_lines(&bookmark.vars, &bookmark.cmds, processed);
        match lines {
            Ok(parts) => Ok(join(&parts, " \\\n&& ")),
            Err(e) => Err(e),
        }
    }

    /// The command that selecting `bookmark` gives.
    pub fn gen_command(&self, bookmark: &Bookmark, default_submit: bool) -> (r: Result<
        String,
        ResolutionError,
    >)
        ensures
            outcome_view(r) == command_of(self@, bookmark@, default_submit),
    {
        let mut processed = StringHashSet::new();
        match self.gen_template_command(bookmark, &mut processed) {
            Ok(text) => {
                let mut cmd = text;
                let submit = match bookmark.auto_submit {
                    Some(choice) => choice,
                    None => default_submit,
                };
                if submit {
                    cmd.push('\n');
                }
                Ok(cmd)
            },
            Err(e) => Err(e),
        }
    }
}

} // verus!
