//! The state of the theme switcher and what each key does to it.
use vstd::prelude::*;

use toml_edit::DocumentMut;

use crate::config::{
    applied_entries, applied_items, apply_theme, current_theme_stem, editable, is_toml, load_doc,
    loaded, remove_theme, removed_entries, removed_items, removes_entry, text_is_config, theme_stem,
};
use crate::order::sorted;
use crate::path::{join, parent, path_join, path_parent};
use crate::text::{concat, copy_string, contains_spec, contains_text, first_line, first_line_spec};
use crate::themes::{load_themes, strings_of, theme_path_spec, themes_in};
use crate::toml_doc::{
    doc_rest, doc_text, document_text, import_entries, import_item_texts, import_layout, read_layout,
    GeneralShape, ImportLayout,
};

verus! {

/// What happens to the configuration when the program ends.
#[derive(PartialEq, Eq, Structural, Clone, Copy, Debug)]
pub enum ExitAction {
    /// The theme last selected stays.
    KeepCurrent,
    /// The theme the configuration had at the start is put back.
    RestoreOriginal,
}

/// A key press, as far as the program tells keys apart.
#[derive(PartialEq, Eq, Structural, Clone, Copy, Debug)]
pub enum Key {
    Up,
    Down,
    Enter,
    Esc,
    Char(char),
    Other,
}

/// What the program does for a key press.
#[derive(PartialEq, Eq, Structural, Clone, Copy, Debug)]
pub enum Action {
    MoveUp,
    MoveDown,
    Exit(ExitAction),
    GitPull,
    Nothing,
}

/// The action for a key press.
pub open spec fn action_spec(key: Key, is_git_repo: bool) -> Action {
    match key {
        Key::Up => Action::MoveUp,
        Key::Char(c) if c == 'k' => Action::MoveUp,
        Key::Down => Action::MoveDown,
        Key::Char(c) if c == 'j' => Action::MoveDown,
        Key::Enter => Action::Exit(ExitAction::KeepCurrent),
        Key::Esc => Action::Exit(ExitAction::RestoreOriginal),
        Key::Char(c) if c == 'q' => Action::Exit(ExitAction::RestoreOriginal),
        Key::Char(c) if c == 'u' && is_git_repo => Action::GitPull,
        _ => Action::Nothing,
    }
}

/// The action for a key: `↑`/`k` and `↓`/`j` move, `Enter` keeps the theme
/// and ends, `Esc`/`q` restore the original theme and end, and `u` pulls the
/// themes repository where there is one.
pub fn action_for_key(key: Key, is_git_repo: bool) -> (a: Action)
    ensures
        a == action_spec(key, is_git_repo),
{
    match key {
        Key::Up => Action::MoveUp,
        Key::Down => Action::MoveDown,
        Key::Enter => Action::Exit(ExitAction::KeepCurrent),
        Key::Esc => Action::Exit(ExitAction::RestoreOriginal),
        Key::Char(c) => {
            if c == 'k' {
                Action::MoveUp
            } else if c == 'j' {
                Action::MoveDown
            } else if c == 'q' {
                Action::Exit(ExitAction::RestoreOriginal)
            } else if c == 'u' && is_git_repo {
                Action::GitPull
            } else {
                Action::Nothing
            }
        },
        Key::Other => Action::Nothing,
    }
}

/// How a `git pull` of the themes repository went, as the caller saw it.
pub enum GitRun {
    /// The themes directory has no parent directory to run `git` in.
    NoRepoDir,
    /// `git` could not be started; the text of the error.
    SpawnFailed(String),
    /// `git` ran: whether it succeeded, and what it wrote.
    Finished { success: bool, stdout: String, stderr: String },
}

/// The pull brought something new, so the theme list is read again.
pub open spec fn pull_reloads(run: GitRun) -> bool {
    match run {
        GitRun::Finished { success, stdout, stderr } => success && !contains_spec(
            stdout@,
            "Already up to date"@,
        ),
        _ => false,
    }
}

/// The status line reported for a pull.
pub open spec fn pull_message(run: GitRun) -> Seq<char> {
    match run {
        GitRun::NoRepoDir => "error: cannot determine repo directory"@,
        GitRun::SpawnFailed(e) => "failed to run git: "@ + e@,
        GitRun::Finished { success, stdout, stderr } => if !success {
            "git error: "@ + match first_line_spec(stderr@) {
                Some(l) => l,
                None => "unknown error"@,
            }
        } else if contains_spec(stdout@, "Already up to date"@) {
            "Already up to date"@
        } else {
            "Updated — theme list refreshed"@
        },
    }
}

/// The index of the first occurrence of `x` in `s` at `i` or later.
pub open spec fn index_from(s: Seq<Seq<char>>, x: Seq<char>, i: int) -> Option<int>
    decreases s.len() - i,
{
    if i < 0 || i >= s.len() {
        None
    } else if s[i] == x {
        Some(i)
    } else {
        index_from(s, x, i + 1)
    }
}

/// The index of the first occurrence of `x` in `s`.
pub open spec fn index_of(s: Seq<Seq<char>>, x: Seq<char>) -> Option<int> {
    index_from(s, x, 0)
}

/// The index of `name` in the list, or 0 where it is absent or there is no
/// name.
pub open spec fn index_or_first(themes: Seq<Seq<char>>, name: Option<Seq<char>>) -> int {
    match name {
        Some(n) => match index_of(themes, n) {
            Some(i) => i,
            None => 0,
        },
        None => 0,
    }
}

/// The selection at the start: the original theme where the list has it,
/// else the first theme; nothing where the list is empty.
pub open spec fn initial_selection(themes: Seq<Seq<char>>, original: Option<Seq<char>>) -> Option<int> {
    if themes.len() == 0 {
        None
    } else {
        Some(index_or_first(themes, original))
    }
}

/// The selection one up, going round from the first to the last.
pub open spec fn up_index(i: int, len: int) -> int {
    if i == 0 {
        len - 1
    } else {
        i - 1
    }
}

/// The selection one down, going round from the last to the first.
pub open spec fn down_index(i: int, len: int) -> int {
    (i + 1) % len
}

/// An optional index, as an integer.
pub open spec fn opt_index(o: Option<usize>) -> Option<int> {
    match o {
        Some(i) => Some(i as int),
        None => None,
    }
}

/// An optional string, as characters.
pub open spec fn opt_string(o: Option<String>) -> Option<Seq<char>> {
    match o {
        Some(s) => Some(s@),
        None => None,
    }
}

/// The state of the theme switcher.
pub struct App {
    /// The theme names, sorted.
    pub themes: Vec<String>,
    /// The index of the selected theme, if any.
    pub selected: Option<usize>,
    /// The theme the configuration used at the start.
    pub original_theme: Option<String>,
    /// The themes directory lies in a git repository.
    pub is_git_repo: bool,
    /// The message shown in the footer, if any.
    pub status_msg: Option<String>,
    /// The path of the configuration file.
    pub config_path: String,
    /// The themes directory.
    pub themes_dir: String,
    /// The home directory, which `~/` in import entries stands for.
    pub home: String,
    /// The configuration document.
    pub doc: DocumentMut,
    /// The configuration file may be written: it could not be read (a new
    /// one is made) or it held TOML. A file that is not TOML is never
    /// written over, so that none of the user's settings is lost.
    pub can_save: bool,
}

impl App {
    /// The configuration document.
    pub open spec fn doc_spec(&self) -> DocumentMut {
        self.doc
    }

    /// The path of the configuration file.
    pub open spec fn config_path_spec(&self) -> Seq<char> {
        self.config_path@
    }

    /// The themes directory.
    pub open spec fn themes_dir_spec(&self) -> Seq<char> {
        self.themes_dir@
    }

    /// The home directory, which `~/` in import entries stands for.
    pub open spec fn home_spec(&self) -> Seq<char> {
        self.home@
    }

    pub open spec fn theme_names(&self) -> Seq<Seq<char>> {
        strings_of(self.themes@)
    }

    /// The name of the selected theme, where the selection is in the list.
    pub open spec fn selected_name(&self) -> Option<Seq<char>> {
        match self.selected {
            Some(i) => if i < self.themes@.len() {
                Some(self.themes@[i as int]@)
            } else {
                None
            },
            None => None,
        }
    }

    /// The import entries of the configuration.
    pub open spec fn entries(&self) -> Seq<Option<Seq<char>>> {
        import_entries(self.doc_spec())
    }

    /// How each item of the import array prints.
    pub open spec fn items(&self) -> Seq<Option<Seq<char>>> {
        import_item_texts(self.doc_spec())
    }

    /// The items of the import array print as in `before`, but for the theme
    /// entry that applying a theme writes.
    pub open spec fn items_applied_from(&self, before: &App) -> bool {
        applied_items(
            before.layout(),
            before.entries(),
            before.items(),
            self.items(),
            before.themes_dir_spec(),
            before.home_spec(),
        )
    }

    pub open spec fn layout(&self) -> ImportLayout {
        import_layout(self.doc_spec())
    }

    /// The entries after the theme `name` has been applied.
    pub open spec fn entries_with(&self, name: Seq<char>) -> Seq<Option<Seq<char>>> {
        applied_entries(
            self.layout(),
            self.entries(),
            theme_path_spec(self.themes_dir_spec(), name, self.home_spec()),
            self.themes_dir_spec(),
            self.home_spec(),
        )
    }

    /// Only the configuration document has changed.
    pub open spec fn same_but_doc(&self, other: &App) -> bool {
        &&& self.themes == other.themes
        &&& self.selected == other.selected
        &&& self.original_theme == other.original_theme
        &&& self.is_git_repo == other.is_git_repo
        &&& self.status_msg == other.status_msg
        &&& self.config_path_spec() == other.config_path_spec()
        &&& self.themes_dir_spec() == other.themes_dir_spec()
        &&& self.home_spec() == other.home_spec()
        &&& self.can_save == other.can_save
    }

    /// The configuration after applying the selected theme, where there is
    /// one: the document has the theme's entry.
    pub open spec fn applied_from(&self, before: &App) -> bool {
        match before.selected_name() {
            Some(name) => {
                &&& self.layout() == (ImportLayout { general: GeneralShape::Table, has_array: true })
                &&& self.entries() == before.entries_with(name)
                &&& self.items_applied_from(before)
                &&& doc_rest(self.doc_spec()) == doc_rest(before.doc_spec())
            },
            None => self.doc_spec() == before.doc_spec(),
        }
    }

    /// Sets up the state from the text of the configuration file at
    /// `config_path` (`None` where it could not be read), the entries of the
    /// themes directory, and whether that directory lies in a git repository.
    /// The list starts on the theme the configuration uses, or on the first
    /// theme.
    pub fn new(
        config_path: String,
        themes_dir: String,
        home: String,
        config_text: Option<&str>,
        theme_entries: &Vec<String>,
        is_git_repo: bool,
    ) -> (app: App)
        ensures
            ({
                let t = match config_text {
                    Some(t) => Some(t@),
                    None => None,
                };
                &&& app.can_save == text_is_config(t)
                &&& (import_layout(app.doc_spec()), import_entries(app.doc_spec()), doc_rest(
                    app.doc_spec(),
                )) == loaded(t)
            }),
            app.config_path_spec() == config_path@,
            app.themes_dir_spec() == themes_dir@,
            app.home_spec() == home@,
            sorted(app.theme_names()),
            app.theme_names().to_multiset() == themes_in(strings_of(theme_entries@)).to_multiset(),
            opt_string(app.original_theme) == theme_stem(
                import_entries(app.doc_spec()),
                themes_dir@,
                home@,
            ),
            opt_index(app.selected) == initial_selection(
                app.theme_names(),
                opt_string(app.original_theme),
            ),
            app.is_git_repo == is_git_repo,
            app.status_msg is None,
    {
        let can_save = match config_text {
            Some(t) => is_toml(t),
            None => true,
        };
        let doc = load_doc(config_text);
        let original_theme = current_theme_stem(&doc, themes_dir.as_str(), home.as_str());
        let themes = load_themes(theme_entries);
        let selected = if themes.len() == 0 {
            None
        } else {
            Some(position_or_first(&themes, &original_theme))
        };
        App {
            themes,
            selected,
            original_theme,
            is_git_repo,
            status_msg: None,
            config_path,
            themes_dir,
            home,
            doc,
            can_save,
        }
    }

    /// The text of the configuration, to be written to `config_path`.
    pub fn config_text(&self) -> (t: String)
        ensures
            t@ == doc_text(self.doc_spec()),
    {
        document_text(&self.doc)
    }

    /// The configuration document, to be written back to `config_path`.
    pub fn document(&self) -> (d: &DocumentMut)
        ensures
            *d == self.doc_spec(),
    {
        &self.doc
    }

    pub fn config_path(&self) -> (p: &str)
        ensures
            p@ == self.config_path_spec(),
    {
        self.config_path.as_str()
    }

    pub fn themes_dir(&self) -> (p: &str)
        ensures
            p@ == self.themes_dir_spec(),
    {
        self.themes_dir.as_str()
    }

    /// Whether a theme can be applied to the configuration: `general` is
    /// missing or a `[general]` table.
    pub fn config_editable(&self) -> (b: bool)
        ensures
            b == editable(self.layout()),
    {
        let l = read_layout(&self.doc);
        l.general == GeneralShape::Missing || l.general == GeneralShape::Table
    }

    /// The name of the selected theme.
    pub fn selected_theme(&self) -> (r: Option<&str>)
        ensures
            match r {
                Some(s) => self.selected_name() == Some(s@),
                None => self.selected_name() is None,
            },
    {
        match self.selected {
            Some(i) => if i < self.themes.len() {
                Some(self.themes[i].as_str())
            } else {
                None
            },
            None => None,
        }
    }

    /// Writes the selected theme into the configuration document; returns
    /// whether the caller is to save the configuration: there was a selected
    /// theme and the file may be written.
    pub fn apply_selected(&mut self) -> (save: bool)
        requires
            old(self).selected_name() is Some ==> editable(old(self).layout()),
        ensures
            save == (old(self).selected_name() is Some && old(self).can_save),
            final(self).same_but_doc(old(self)),
            final(self).applied_from(old(self)),
    {
        let theme = match self.selected_theme() {
            Some(t) => Some(copy_string(t)),
            None => None,
        };
        match theme {
            Some(t) => {
                apply_theme(&mut self.doc, self.themes_dir.as_str(), self.home.as_str(), t.as_str());
                self.can_save
            },
            None => false,
        }
    }

    /// Moves the selection one up (from the first to the last), clears the
    /// status message and applies the theme. Does nothing on an empty list.
    /// Returns whether the caller is to save the configuration.
    pub fn move_up(&mut self) -> (save: bool)
        requires
            old(self).themes@.len() > 0 && up_index(
                match old(self).selected {
                    Some(i) => i as int,
                    None => 0,
                },
                old(self).themes@.len() as int,
            ) < old(self).themes@.len() ==> editable(old(self).layout()),
        ensures
            old(self).themes@.len() == 0 ==> *final(self) == *old(self) && !save,
            old(self).themes@.len() > 0 ==> {
                let i = match old(self).selected {
                    Some(i) => i as int,
                    None => 0,
                };
                let next = up_index(i, old(self).themes@.len() as int);
                &&& opt_index(final(self).selected) == Some(next)
                &&& final(self).status_msg is None
                &&& final(self).themes == old(self).themes
                &&& final(self).original_theme == old(self).original_theme
                &&& final(self).is_git_repo == old(self).is_git_repo
                &&& final(self).config_path_spec() == old(self).config_path_spec()
                &&& final(self).themes_dir_spec() == old(self).themes_dir_spec()
                &&& final(self).home_spec() == old(self).home_spec()
                &&& final(self).can_save == old(self).can_save
                &&& save == (next < old(self).themes@.len() && old(self).can_save)
                &&& if next < old(self).themes@.len() {
                    &&& final(self).layout() == (ImportLayout {
                        general: GeneralShape::Table,
                        has_array: true,
                    })
                    &&& final(self).entries() == old(self).entries_with(old(self).themes@[next]@)
                    &&& final(self).items_applied_from(old(self))
                    &&& doc_rest(final(self).doc_spec()) == doc_rest(old(self).doc_spec())
                } else {
                    final(self).doc_spec() == old(self).doc_spec()
                }
            },
    {
        if self.themes.len() == 0 {
            return false;
        }
        let i = match self.selected {
            Some(i) => i,
            None => 0,
        };
        let next = if i == 0 {
            self.themes.len() - 1
        } else {
            i - 1
        };
        self.selected = Some(next);
        self.status_msg = None;
        self.apply_selected()
    }

    /// Moves the selection one down (from the last to the first), clears the
    /// status message and applies the theme. Does nothing on an empty list.
    /// Returns whether the caller is to save the configuration.
    pub fn move_down(&mut self) -> (save: bool)
        requires
            old(self).themes@.len() > 0 ==> editable(old(self).layout()),
        ensures
            old(self).themes@.len() == 0 ==> *final(self) == *old(self) && !save,
            old(self).themes@.len() > 0 ==> {
                let i = match old(self).selected {
                    Some(i) => i as int,
                    None => 0,
                };
                let next = down_index(i, old(self).themes@.len() as int);
                &&& opt_index(final(self).selected) == Some(next)
                &&& final(self).status_msg is None
                &&& final(self).themes == old(self).themes
                &&& final(self).original_theme == old(self).original_theme
                &&& final(self).is_git_repo == old(self).is_git_repo
                &&& final(self).config_path_spec() == old(self).config_path_spec()
                &&& final(self).themes_dir_spec() == old(self).themes_dir_spec()
                &&& final(self).home_spec() == old(self).home_spec()
                &&& final(self).can_save == old(self).can_save
                &&& save == old(self).can_save
                &&& final(self).layout() == (ImportLayout {
                    general: GeneralShape::Table,
                    has_array: true,
                })
                &&& final(self).entries() == old(self).entries_with(old(self).themes@[next]@)
                &&& final(self).items_applied_from(old(self))
                &&& doc_rest(final(self).doc_spec()) == doc_rest(old(self).doc_spec())
            },
    {
        if self.themes.len() == 0 {
            return false;
        }
        let len = self.themes.len();
        let i = match self.selected {
            Some(i) => i,
            None => 0,
        };
        let r = i % len;
        let next = if r + 1 == len {
            0
        } else {
            r + 1
        };
        proof {
            lemma_next_mod(i as int, len as int);
        }
        self.selected = Some(next);
        self.status_msg = None;
        self.apply_selected()
    }

    /// Puts the original theme back into the configuration, or takes the
    /// theme entry out where the configuration had no theme at the start.
    /// Everything else the configuration holds stays as it was. Returns
    /// whether the caller is to save the configuration.
    pub fn restore_original(&mut self) -> (save: bool)
        requires
            old(self).original_theme is Some ==> editable(old(self).layout()),
        ensures
            save == old(self).can_save,
            final(self).same_but_doc(old(self)),
            doc_rest(final(self).doc_spec()) == doc_rest(old(self).doc_spec()),
            match old(self).original_theme {
                Some(t) => {
                    &&& final(self).layout() == (ImportLayout {
                        general: GeneralShape::Table,
                        has_array: true,
                    })
                    &&& final(self).entries() == old(self).entries_with(t@)
                    &&& final(self).items_applied_from(old(self))
                },
                None => {
                    &&& final(self).layout() == old(self).layout()
                    &&& final(self).entries() == removed_entries(
                        old(self).layout(),
                        old(self).entries(),
                        old(self).themes_dir_spec(),
                        old(self).home_spec(),
                    )
                    &&& final(self).items() == removed_items(
                        old(self).layout(),
                        old(self).entries(),
                        old(self).items(),
                        old(self).themes_dir_spec(),
                        old(self).home_spec(),
                    )
                    &&& !removes_entry(
                        old(self).layout(),
                        old(self).entries(),
                        old(self).themes_dir_spec(),
                        old(self).home_spec(),
                    ) ==> final(self).doc_spec() == old(self).doc_spec()
                },
            },
    {
        match &self.original_theme {
            Some(t) => apply_theme(&mut self.doc, self.themes_dir.as_str(), self.home.as_str(), t.as_str()),
            None => remove_theme(&mut self.doc, self.themes_dir.as_str(), self.home.as_str()),
        }
        self.can_save
    }

    /// The directory of the themes repository: the parent of the themes
    /// directory.
    pub fn repo_dir(&self) -> (r: Option<String>)
        ensures
            opt_string(r) == parent(self.themes_dir_spec()),
    {
        path_parent(self.themes_dir.as_str())
    }

    /// Where a `.git` directory shows that the themes directory lies in a git
    /// repository: `.git` in the parent of the themes directory.
    pub fn git_dir_of(themes_dir: &str) -> (r: Option<String>)
        ensures
            opt_string(r) == match parent(themes_dir@) {
                Some(p) => Some(join(p, ".git"@)),
                None => None,
            },
    {
        match path_parent(themes_dir) {
            Some(p) => Some(path_join(p.as_str(), ".git")),
            None => None,
        }
    }

    /// Takes in the outcome of a `git pull` of the themes repository and
    /// returns the status message for the footer. Where the pull brought
    /// something new, the theme list is replaced by the one of `theme_entries`
    /// (the entries of the themes directory after the pull) and the selection
    /// stays on the same theme where it is still there, else goes to the
    /// first.
    pub fn git_pull(&mut self, run: GitRun, theme_entries: &Vec<String>) -> (msg: String)
        ensures
            msg@ == pull_message(run),
            final(self).doc_spec() == old(self).doc_spec(),
            final(self).original_theme == old(self).original_theme,
            final(self).is_git_repo == old(self).is_git_repo,
            final(self).status_msg == old(self).status_msg,
            final(self).config_path_spec() == old(self).config_path_spec(),
            final(self).themes_dir_spec() == old(self).themes_dir_spec(),
            final(self).home_spec() == old(self).home_spec(),
            final(self).can_save == old(self).can_save,
            !pull_reloads(run) ==> final(self).themes == old(self).themes && final(self).selected
                == old(self).selected,
            pull_reloads(run) ==> {
                &&& sorted(final(self).theme_names())
                &&& final(self).theme_names().to_multiset() == themes_in(
                    strings_of(theme_entries@),
                ).to_multiset()
                &&& opt_index(final(self).selected) == Some(
                    index_or_first(final(self).theme_names(), old(self).selected_name()),
                )
            },
    {
        match run {
            GitRun::NoRepoDir => copy_string("error: cannot determine repo directory"),
            GitRun::SpawnFailed(e) => concat("failed to run git: ", e.as_str()),
            GitRun::Finished { success, stdout, stderr } => {
                if !success {
                    let line = first_line(stderr.as_str());
                    match line {
                        Some(l) => concat("git error: ", l.as_str()),
                        None => concat("git error: ", "unknown error"),
                    }
                } else if contains_text(stdout.as_str(), "Already up to date") {
                    copy_string("Already up to date")
                } else {
                    let current = match self.selected_theme() {
                        Some(t) => Some(copy_string(t)),
                        None => None,
                    };
                    self.themes = load_themes(theme_entries);
                    let idx = position_or_first(&self.themes, &current);
                    self.selected = Some(idx);
                    copy_string("Updated — theme list refreshed")
                }
            },
        }
    }
}

/// Stepping down from `i % len` is stepping down from `i`.
pub proof fn lemma_next_mod(i: int, len: int)
    requires
        0 <= i,
        0 < len,
    ensures
        (if i % len + 1 == len {
            0
        } else {
            i % len + 1
        }) == (i + 1) % len,
        0 <= i % len < len,
{
    vstd::arithmetic::div_mod::lemma_add_mod_noop(i, 1, len);
    vstd::arithmetic::div_mod::lemma_mod_bound(i, len);
    if len == 1 {
        vstd::arithmetic::div_mod::lemma_mod_self_0(1);
        vstd::arithmetic::div_mod::lemma_mod_bound(i + 1, 1);
    } else {
        vstd::arithmetic::div_mod::lemma_small_mod(1, len as nat);
        vstd::arithmetic::div_mod::lemma_mod_bound(i % len + 1, len);
        if i % len + 1 == len {
            vstd::arithmetic::div_mod::lemma_mod_self_0(len);
        } else {
            vstd::arithmetic::div_mod::lemma_small_mod((i % len + 1) as nat, len as nat);
        }
    }
}

/// The index of `name` in `themes`, or 0.
fn position_or_first(themes: &Vec<String>, name: &Option<String>) -> (r: usize)
    ensures
        r as int == index_or_first(strings_of(themes@), opt_string(*name)),
        themes@.len() > 0 ==> r < themes@.len(),
{
    match name {
        None => 0,
        Some(n) => {
            let ghost s = strings_of(themes@);
            let mut i: usize = 0;
            while i < themes.len()
                invariant
                    i <= themes@.len(),
                    s == strings_of(themes@),
                    opt_string(*name) == Some(n@),
                    index_of(s, n@) == index_from(s, n@, i as int),
                decreases themes@.len() - i,
            {
                if themes[i] == *n {
                    return i;
                }
                i = i + 1;
            }
            0
        },
    }
}

} // verus!
