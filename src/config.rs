use vstd::prelude::*;

use crate::text::{from_text, str_le, text_le};

verus! {

/// What a program entry holds, as plain mathematical values.
pub struct ProgramEntryView {
    pub name: Seq<char>,
    pub display_name: Seq<char>,
    pub command: Seq<char>,
    pub args: Seq<Seq<char>>,
    pub description: Option<Seq<char>>,
    pub run_with_sudo: bool,
    pub show_output: bool,
}

/// A launchable program: its key (`name`), the label shown in the menu,
/// the command and its arguments, and how it is to be run.
#[derive(Debug)]
pub struct ProgramEntry {
    pub name: String,
    pub display_name: String,
    pub command: String,
    pub args: Vec<String>,
    pub description: Option<String>,
    pub run_with_sudo: bool,
    pub show_output: bool,
}

pub open spec fn texts(v: Seq<String>) -> Seq<Seq<char>> {
    v.map_values(|s: String| s@)
}

pub open spec fn opt_text(o: Option<String>) -> Option<Seq<char>> {
    match o {
        Some(s) => Some(s@),
        None => None,
    }
}

impl View for ProgramEntry {
    type V = ProgramEntryView;

    open spec fn view(&self) -> ProgramEntryView {
        ProgramEntryView {
            name: self.name@,
            display_name: self.display_name@,
            command: self.command@,
            args: texts(self.args@),
            description: opt_text(self.description),
            run_with_sudo: self.run_with_sudo,
            show_output: self.show_output,
        }
    }
}

/// Copies a list of strings.
pub fn copy_texts(v: &Vec<String>) -> (r: Vec<String>)
    ensures
        texts(r@) == texts(v@),
{
    let mut r: Vec<String> = Vec::new();
    let mut i: usize = 0;
    while i < v.len()
        invariant
            i <= v@.len(),
            r@.len() == i,
            texts(r@) == texts(v@.take(i as int)),
        decreases v@.len() - i,
    {
        let ghost before = r@;
        let s = v[i].clone();
        r.push(s);
        assert(r@ == before.push(v@[i as int]));
        assert(v@.take(i + 1) == v@.take(i as int).push(v@[i as int]));
        assert forall|k: int| 0 <= k < i + 1 implies #[trigger] texts(r@)[k] == texts(
            v@.take(i + 1),
        )[k] by {
            if k < i {
                assert(texts(before)[k] == texts(v@.take(i as int))[k]);
            }
        }
        assert(texts(r@) =~= texts(v@.take(i + 1)));
        i += 1;
    }
    assert(v@.take(v@.len() as int) =~= v@);
    r
}

impl ProgramEntry {
    /// A copy with the same contents.
    pub fn duplicate(&self) -> (r: ProgramEntry)
        ensures
            r@ == self@,
    {
        let description = match &self.description {
            Some(d) => Some(d.clone()),
            None => None,
        };
        ProgramEntry {
            name: self.name.clone(),
            display_name: self.display_name.clone(),
            command: self.command.clone(),
            args: copy_texts(&self.args),
            description,
            run_with_sudo: self.run_with_sudo,
            show_output: self.show_output,
        }
    }
}

pub open spec fn has_name(s: Seq<ProgramEntryView>, name: Seq<char>) -> bool {
    exists|i: int| 0 <= i < s.len() && s[i].name == name
}

/// The position of the entry keyed `name` (meaningful when `has_name`).
pub open spec fn name_index(s: Seq<ProgramEntryView>, name: Seq<char>) -> int {
    choose|i: int| 0 <= i < s.len() && s[i].name == name
}

/// No two entries share a key.
pub open spec fn unique_names(s: Seq<ProgramEntryView>) -> bool {
    forall|i: int, j: int| 0 <= i < s.len() && 0 <= j < s.len() && i != j ==> s[i].name != s[j].name
}

/// The entries as a map from key to entry.
pub open spec fn entry_map(s: Seq<ProgramEntryView>) -> Map<Seq<char>, ProgramEntryView> {
    Map::new(|k: Seq<char>| has_name(s, k), |k: Seq<char>| s[name_index(s, k)])
}

/// The map that storing `s`'s entries one after another, from an empty
/// store, leaves: a later entry replaces an earlier one with the same name.
pub open spec fn entries_map(s: Seq<ProgramEntryView>) -> Map<Seq<char>, ProgramEntryView>
    decreases s.len(),
{
    if s.len() == 0 {
        Map::empty()
    } else {
        entries_map(s.drop_last()).insert(s.last().name, s.last())
    }
}

/// Inserts `e` into a list ordered by display name, after every entry whose
/// display name is not greater than its own.
pub open spec fn insert_by_display(s: Seq<ProgramEntryView>, e: ProgramEntryView) -> Seq<
    ProgramEntryView,
>
    decreases s.len(),
{
    if s.len() == 0 {
        seq![e]
    } else if !str_le(s[0].display_name, e.display_name) {
        seq![e] + s
    } else {
        seq![s[0]] + insert_by_display(s.drop_first(), e)
    }
}

/// The entries ordered by display name; entries with equal display names
/// keep their stored order.
pub open spec fn sorted_by_display(s: Seq<ProgramEntryView>) -> Seq<ProgramEntryView>
    decreases s.len(),
{
    if s.len() == 0 {
        Seq::empty()
    } else {
        insert_by_display(sorted_by_display(s.drop_last()), s.last())
    }
}

proof fn lemma_insert_at(s: Seq<ProgramEntryView>, e: ProgramEntryView, j: int)
    requires
        0 <= j <= s.len(),
        forall|k: int| 0 <= k < j ==> str_le(#[trigger] s[k].display_name, e.display_name),
        j < s.len() ==> !str_le(s[j].display_name, e.display_name),
    ensures
        insert_by_display(s, e) == s.insert(j, e),
    decreases s.len(),
{
    if s.len() == 0 {
        assert(s.insert(j, e) =~= seq![e]);
    } else if j == 0 {
        assert(s.insert(j, e) =~= seq![e] + s);
    } else {
        let t = s.drop_first();
        assert forall|k: int| 0 <= k < j - 1 implies str_le(
            #[trigger] t[k].display_name,
            e.display_name,
        ) by {
            assert(t[k] == s[k + 1]);
        }
        lemma_insert_at(t, e, j - 1);
        assert(s.insert(j, e) =~= seq![s[0]] + t.insert(j - 1, e));
    }
}

/// The list of launchable programs, keyed by `name`.
#[derive(Debug)]
pub struct Config {
    pub programs: Vec<ProgramEntry>,
}

impl View for Config {
    type V = Seq<ProgramEntryView>;

    open spec fn view(&self) -> Seq<ProgramEntryView> {
        self.programs@.map_values(|p: ProgramEntry| p@)
    }
}

/// A built-in entry: no arguments, run without sudo, output not captured.
pub open spec fn builtin_view(
    name: Seq<char>,
    display_name: Seq<char>,
    description: Seq<char>,
) -> ProgramEntryView {
    ProgramEntryView {
        name,
        display_name,
        command: name,
        args: Seq::empty(),
        description: Some(description),
        run_with_sudo: false,
        show_output: false,
    }
}

fn builtin(name: &str, display_name: &str, description: &str) -> (r: ProgramEntry)
    ensures
        r@ == builtin_view(name@, display_name@, description@),
{
    let r = ProgramEntry {
        name: from_text(name),
        display_name: from_text(display_name),
        command: from_text(name),
        args: Vec::new(),
        description: Some(from_text(description)),
        run_with_sudo: false,
        show_output: false,
    };
    assert(texts(r.args@) =~= Seq::<Seq<char>>::empty());
    r
}

/// The store written out when no configuration exists yet: a system
/// monitor and a text editor.
impl Default for Config {
    fn default() -> (r: Config)
        ensures
            r.wf(),
            r@ == seq![
                builtin_view("htop"@, "System Monitor"@, "System resource monitor"@),
                builtin_view("vim"@, "Text Editor"@, "Vim text editor"@),
            ],
    {
        let mut r = Config::empty();
        r.add_program(builtin("htop", "System Monitor", "System resource monitor"));
        proof {
            reveal_strlit("htop");
            reveal_strlit("vim");
            assert("htop"@ != "vim"@) by {
                assert("htop"@.len() != "vim"@.len());
            }
        }
        r.add_program(builtin("vim", "Text Editor", "Vim text editor"));
        assert(r@ =~= seq![
            builtin_view("htop"@, "System Monitor"@, "System resource monitor"@),
            builtin_view("vim"@, "Text Editor"@, "Vim text editor"@),
        ]);
        r
    }
}

/// The path that `Path::join` makes of a base and one more part.
pub uninterp spec fn path_join(base: Seq<char>, part: Seq<char>) -> Seq<char>;

/// Relies on dirs::config_dir: the platform's per-user configuration
/// directory, when the environment names one; a directory whose name is not
/// valid UTF-8 counts as none.
#[verifier::external_body]
fn platform_config_dir() -> (r: Option<String>) {
    dirs::config_dir().and_then(|p| p.into_os_string().into_string().ok())
}

/// Relies on dirs::home_dir: the user's home directory, when one is known;
/// a directory whose name is not valid UTF-8 counts as none.
#[verifier::external_body]
fn platform_home_dir() -> (r: Option<String>) {
    dirs::home_dir().and_then(|p| p.into_os_string().into_string().ok())
}

/// Relies on Path::join: appends one part to a path. Both are UTF-8, so the
/// joined path is too and converts to text unchanged.
#[verifier::external_body]
fn join_path(base: &str, part: &str) -> (r: String)
    ensures
        r@ == path_join(base@, part@),
{
    std::path::Path::new(base).join(part).to_string_lossy().into_owned()
}

pub open spec fn opt_view(o: Option<String>) -> Option<Seq<char>> {
    match o {
        Some(s) => Some(s@),
        None => None,
    }
}

/// The directory that holds the configuration: `<config>/rdash`, or
/// `<home>/.config/rdash` when the platform names no configuration
/// directory, or none when it names neither.
pub open spec fn rdash_dir(config: Option<Seq<char>>, home: Option<Seq<char>>) -> Option<Seq<char>> {
    match config {
        Some(c) => Some(path_join(c, "rdash"@)),
        None => match home {
            Some(h) => Some(path_join(path_join(h, ".config"@), "rdash"@)),
            None => None,
        },
    }
}

/// The configuration file inside a directory: `<dir>/config.json`.
pub open spec fn config_file_of(dir: Option<Seq<char>>) -> Option<Seq<char>> {
    match dir {
        Some(d) => Some(path_join(d, "config.json"@)),
        None => None,
    }
}

/// The configuration directory, from the platform's configuration and home
/// directories.
pub fn config_dir_from(config: Option<String>, home: Option<String>) -> (r: Option<String>)
    ensures
        opt_view(r) == rdash_dir(opt_view(config), opt_view(home)),
{
    match config {
        Some(c) => Some(join_path(c.as_str(), "rdash")),
        None => match home {
            Some(h) => {
                let base = join_path(h.as_str(), ".config");
                Some(join_path(base.as_str(), "rdash"))
            },
            None => None,
        },
    }
}

/// The configuration file, from the configuration directory.
pub fn config_file_in(dir: Option<String>) -> (r: Option<String>)
    ensures
        opt_view(r) == config_file_of(opt_view(dir)),
{
    match dir {
        Some(d) => Some(join_path(d.as_str(), "config.json")),
        None => None,
    }
}

impl Config {
    pub open spec fn wf(&self) -> bool {
        unique_names(self@)
    }

    /// A store with no programs.
    pub fn empty() -> (r: Config)
        ensures
            r.wf(),
            r@ == Seq::<ProgramEntryView>::empty(),
    {
        let r = Config { programs: Vec::new() };
        assert(r@ =~= Seq::<ProgramEntryView>::empty());
        r
    }

    /// `<config dir>/rdash`, where the config directory falls back to
    /// `<home>/.config`; `None` when the environment names neither. The home
    /// directory is asked for only when there is no config directory.
    pub fn config_dir() -> (r: Option<String>)
        ensures
            r is Some ==> exists|config: Option<Seq<char>>, home: Option<Seq<char>>|
                opt_view(r) == #[trigger] rdash_dir(config, home),
    {
        let config = platform_config_dir();
        let home = if config.is_none() {
            platform_home_dir()
        } else {
            None
        };
        let r = config_dir_from(config, home);
        assert(opt_view(r) == rdash_dir(opt_view(config), opt_view(home)));
        r
    }

    /// `<config dir>/rdash/config.json`; `None` exactly when `config_dir` is.
    pub fn config_file() -> (r: Option<String>)
        ensures
            r is Some ==> exists|config: Option<Seq<char>>, home: Option<Seq<char>>|
                opt_view(r) == #[trigger] config_file_of(rdash_dir(config, home)),
    {
        let dir = Self::config_dir();
        let ghost d = opt_view(dir);
        let r = config_file_in(dir);
        proof {
            if r is Some {
                let (c, h) = choose|config: Option<Seq<char>>, home: Option<Seq<char>>|
                    d == #[trigger] rdash_dir(config, home);
                assert(opt_view(r) == config_file_of(rdash_dir(c, h)));
            }
        }
        r
    }

    /// Position of the entry keyed `name`, if there is one.
    fn find(&self, name: &String) -> (r: Option<usize>)
        requires
            self.wf(),
        ensures
            match r {
                Some(k) => has_name(self@, name@) && k == name_index(self@, name@) && k
                    < self@.len(),
                None => !has_name(self@, name@),
            },
    {
        let mut k: usize = 0;
        while k < self.programs.len()
            invariant
                k <= self@.len(),
                self@.len() == self.programs@.len(),
                forall|i: int| 0 <= i < k ==> self@[i].name != name@,
                self.wf(),
            decreases self@.len() - k,
        {
            if self.programs[k].name == *name {
                assert(self@[k as int].name == name@);
                let ghost j = name_index(self@, name@);
                assert(self@[j].name == name@);
                return Some(k);
            }
            k += 1;
        }
        None
    }

    /// Stores `entry` under its name, replacing an entry with the same name.
    pub fn add_program(&mut self, entry: ProgramEntry)
        requires
            old(self).wf(),
        ensures
            final(self).wf(),
            has_name(old(self)@, entry@.name) ==> final(self)@ == old(self)@.update(
                name_index(old(self)@, entry@.name),
                entry@,
            ),
            !has_name(old(self)@, entry@.name) ==> final(self)@ == old(self)@.push(entry@),
            entry_map(final(self)@) == entry_map(old(self)@).insert(entry@.name, entry@),
    {
        let ghost e = entry@;
        let ghost s0 = self@;
        match self.find(&entry.name) {
            Some(k) => {
                self.programs.set(k, entry);
                assert(self@ =~= s0.update(k as int, e));
            },
            None => {
                self.programs.push(entry);
                assert(self@ =~= s0.push(e));
            },
        }
        proof {
            lemma_map_after_store(s0, self@, e);
        }
    }

    /// Removes the entry keyed `name`; says whether there was one.
    pub fn remove_program(&mut self, name: &str) -> (r: bool)
        requires
            old(self).wf(),
        ensures
            final(self).wf(),
            r == has_name(old(self)@, name@),
            r ==> final(self)@ == old(self)@.remove(name_index(old(self)@, name@)),
            !r ==> final(self)@ == old(self)@,
            entry_map(final(self)@) == entry_map(old(self)@).remove(name@),
    {
        let ghost s0 = self@;
        let key = from_text(name);
        match self.find(&key) {
            Some(k) => {
                let _ = self.programs.remove(k);
                assert(self@ =~= s0.remove(k as int));
                proof {
                    lemma_map_after_remove(s0, k as int);
                }
                true
            },
            None => {
                assert(entry_map(s0) =~= entry_map(s0).remove(name@));
                false
            },
        }
    }

    /// A store holding `entries`, stored one after another.
    pub fn from_entries(entries: &Vec<ProgramEntry>) -> (r: Config)
        ensures
            r.wf(),
            entry_map(r@) == entries_map(entries@.map_values(|p: ProgramEntry| p@)),
    {
        let ghost all = entries@.map_values(|p: ProgramEntry| p@);
        let mut r = Config::empty();
        assert(entry_map(r@) =~= Map::<Seq<char>, ProgramEntryView>::empty());
        let n = entries.len();
        let mut i: usize = 0;
        proof {
            assert(all.take(0) =~= Seq::<ProgramEntryView>::empty());
        }
        while i < n
            invariant
                n == all.len(),
                n == entries@.len(),
                all == entries@.map_values(|p: ProgramEntry| p@),
                i <= n,
                r.wf(),
                entry_map(r@) == entries_map(all.take(i as int)),
            decreases n - i,
        {
            let e = entries[i].duplicate();
            proof {
                assert(e@ == all[i as int]);
                assert(all.take(i + 1).drop_last() =~= all.take(i as int));
            }
            r.add_program(e);
            i += 1;
        }
        assert(all.take(n as int) =~= all);
        r
    }

    /// The programs ordered by display name.
    pub fn get_programs(&self) -> (r: Vec<&ProgramEntry>)
        requires
            self.wf(),
        ensures
            r@.map_values(|p: &ProgramEntry| p@) == sorted_by_display(self@),
            ordered_by_display(sorted_by_display(self@)),
            r@.len() == self@.len(),
            forall|i: int| 0 <= i < r@.len() ==> self@.contains(#[trigger] r@[i]@),
    {
        proof {
            lemma_menu_ordered(self@);
            lemma_sorted_by_display(self@);
        }
        let mut r: Vec<&ProgramEntry> = Vec::new();
        let mut i: usize = 0;
        while i < self.programs.len()
            invariant
                i <= self@.len(),
                self@.len() == self.programs@.len(),
                r@.map_values(|p: &ProgramEntry| p@) == sorted_by_display(self@.take(i as int)),
            decreases self@.len() - i,
        {
            let e = &self.programs[i];
            let ghost before = r@.map_values(|p: &ProgramEntry| p@);
            let mut j: usize = 0;
            while j < r.len() && text_le(r[j].display_name.as_str(), e.display_name.as_str())
                invariant
                    j <= r@.len(),
                    before == r@.map_values(|p: &ProgramEntry| p@),
                    forall|k: int|
                        0 <= k < j ==> str_le(#[trigger] before[k].display_name, e@.display_name),
                decreases r@.len() - j,
            {
                j += 1;
            }
            proof {
                lemma_insert_at(before, e@, j as int);
                assert(self@.take(i + 1).drop_last() =~= self@.take(i as int));
            }
            r.insert(j, e);
            assert(r@.map_values(|p: &ProgramEntry| p@) =~= before.insert(j as int, e@));
            i += 1;
        }
        assert(self@.take(self@.len() as int) =~= self@);
        assert forall|i: int| 0 <= i < r@.len() implies self@.contains(#[trigger] r@[i]@) by {
            assert(r@.map_values(|p: &ProgramEntry| p@)[i] == r@[i]@);
        }
        r
    }
}

proof fn lemma_map_after_store(s0: Seq<ProgramEntryView>, s1: Seq<ProgramEntryView>, e: ProgramEntryView)
    requires
        unique_names(s0),
        has_name(s0, e.name) ==> s1 == s0.update(name_index(s0, e.name), e),
        !has_name(s0, e.name) ==> s1 == s0.push(e),
    ensures
        unique_names(s1),
        entry_map(s1) == entry_map(s0).insert(e.name, e),
{
    if has_name(s0, e.name) {
        let k = name_index(s0, e.name);
        assert(s1[k] == e);
        assert forall|n: Seq<char>| #[trigger] has_name(s1, n) == (has_name(s0, n)) by {
            if has_name(s0, n) {
                let i = name_index(s0, n);
                if i == k {
                    assert(s1[k].name == n);
                } else {
                    assert(s1[i].name == n);
                }
            }
            if has_name(s1, n) {
                let i = name_index(s1, n);
                if i == k {
                    assert(s0[k].name == n);
                } else {
                    assert(s0[i].name == n);
                }
            }
        }
        assert forall|n: Seq<char>| has_name(s1, n) implies s1[name_index(s1, n)] == (
        if n == e.name {
            e
        } else {
            s0[name_index(s0, n)]
        }) by {
            let i = name_index(s1, n);
            let j = name_index(s0, n);
            if n == e.name {
                assert(s1[k].name == n);
            } else {
                assert(i != k);
                assert(s0[i].name == n);
            }
        }
        assert(entry_map(s1) =~= entry_map(s0).insert(e.name, e));
    } else {
        assert forall|n: Seq<char>| #[trigger] has_name(s1, n) == (has_name(s0, n) || n
            == e.name) by {
            if has_name(s0, n) {
                let i = name_index(s0, n);
                assert(s1[i].name == n);
            }
            if n == e.name {
                assert(s1[s0.len() as int].name == n);
            }
            if has_name(s1, n) && n != e.name {
                let i = name_index(s1, n);
                assert(s0[i].name == n);
            }
        }
        assert forall|n: Seq<char>| has_name(s1, n) implies s1[name_index(s1, n)] == (
        if n == e.name {
            e
        } else {
            s0[name_index(s0, n)]
        }) by {
            let i = name_index(s1, n);
            if n == e.name {
                assert(s1[s0.len() as int].name == n);
            } else {
                assert(s0[i].name == n);
            }
        }
        assert(entry_map(s1) =~= entry_map(s0).insert(e.name, e));
    }
}

proof fn lemma_map_after_remove(s0: Seq<ProgramEntryView>, k: int)
    requires
        unique_names(s0),
        0 <= k < s0.len(),
    ensures
        unique_names(s0.remove(k)),
        entry_map(s0.remove(k)) == entry_map(s0).remove(s0[k].name),
{
    let s1 = s0.remove(k);
    let gone = s0[k].name;
    assert forall|i: int, j: int|
        0 <= i < s1.len() && 0 <= j < s1.len() && i != j implies s1[i].name != s1[j].name by {
        let a = if i < k { i } else { i + 1 };
        let b = if j < k { j } else { j + 1 };
        assert(s1[i] == s0[a]);
        assert(s1[j] == s0[b]);
    }
    assert forall|n: Seq<char>| #[trigger] has_name(s1, n) == (has_name(s0, n) && n != gone) by {
        if has_name(s0, n) && n != gone {
            let i = name_index(s0, n);
            assert(i != k);
            if i < k {
                assert(s1[i].name == n);
            } else {
                assert(s1[i - 1].name == n);
            }
        }
        if has_name(s1, n) {
            let i = name_index(s1, n);
            let a = if i < k { i } else { i + 1 };
            assert(s0[a].name == n);
            assert(a != k);
        }
    }
    assert forall|n: Seq<char>| has_name(s1, n) implies s1[name_index(s1, n)] == s0[name_index(
        s0,
        n,
    )] by {
        let i = name_index(s1, n);
        let a = if i < k { i } else { i + 1 };
        assert(s1[i] == s0[a]);
        assert(s0[a].name == n);
    }
    assert(entry_map(s1) =~= entry_map(s0).remove(gone));
}

} // verus!

verus! {

proof fn lemma_insert_by_display(s: Seq<ProgramEntryView>, e: ProgramEntryView)
    ensures
        insert_by_display(s, e).len() == s.len() + 1,
        forall|i: int|
            0 <= i < s.len() + 1 ==> #[trigger] insert_by_display(s, e)[i] == e || s.contains(
                insert_by_display(s, e)[i],
            ),
    decreases s.len(),
{
    if s.len() > 0 && str_le(s[0].display_name, e.display_name) {
        let t = s.drop_first();
        lemma_insert_by_display(t, e);
        assert forall|i: int| 0 <= i < s.len() + 1 implies #[trigger] insert_by_display(s, e)[i]
            == e || s.contains(insert_by_display(s, e)[i]) by {
            if i == 0 {
                assert(s[0] == insert_by_display(s, e)[0]);
            } else {
                let x = insert_by_display(t, e)[i - 1];
                assert(insert_by_display(s, e)[i] == x);
                if x != e {
                    let j = choose|j: int| 0 <= j < t.len() && t[j] == x;
                    assert(s[j + 1] == x);
                }
            }
        }
    } else if s.len() > 0 {
        assert forall|i: int| 0 <= i < s.len() + 1 implies #[trigger] insert_by_display(s, e)[i]
            == e || s.contains(insert_by_display(s, e)[i]) by {
            if i > 0 {
                assert(s[i - 1] == insert_by_display(s, e)[i]);
            }
        }
    }
}

/// Ordering by display name keeps the number of entries, and every entry
/// of the ordered list is one of the stored entries.
pub proof fn lemma_sorted_by_display(s: Seq<ProgramEntryView>)
    ensures
        sorted_by_display(s).len() == s.len(),
        forall|i: int| 0 <= i < s.len() ==> s.contains(#[trigger] sorted_by_display(s)[i]),
    decreases s.len(),
{
    if s.len() > 0 {
        let t = s.drop_last();
        lemma_sorted_by_display(t);
        let st = sorted_by_display(t);
        lemma_insert_by_display(st, s.last());
        assert forall|i: int| 0 <= i < s.len() implies s.contains(
            #[trigger] sorted_by_display(s)[i],
        ) by {
            let x = sorted_by_display(s)[i];
            if x == s.last() {
                assert(s[s.len() - 1] == x);
            } else {
                let j = choose|j: int| 0 <= j < st.len() && st[j] == x;
                let k = choose|k: int| 0 <= k < t.len() && t[k] == st[j];
                assert(s[k] == x);
            }
        }
    }
}

proof fn lemma_str_le_total(a: Seq<char>, b: Seq<char>)
    ensures
        str_le(a, b) || str_le(b, a),
    decreases a.len(),
{
    if a.len() > 0 && b.len() > 0 && (a[0] as u32) == (b[0] as u32) {
        lemma_str_le_total(a.drop_first(), b.drop_first());
    }
}

proof fn lemma_str_le_trans(a: Seq<char>, b: Seq<char>, c: Seq<char>)
    requires
        str_le(a, b),
        str_le(b, c),
    ensures
        str_le(a, c),
    decreases a.len(),
{
    if a.len() > 0 && b.len() > 0 && c.len() > 0 && (a[0] as u32) == (b[0] as u32) && (b[0]
        as u32) == (c[0] as u32) {
        lemma_str_le_trans(a.drop_first(), b.drop_first(), c.drop_first());
    }
}

/// Each entry's display name comes at or before the next ones'.
pub open spec fn ordered_by_display(s: Seq<ProgramEntryView>) -> bool {
    forall|i: int, j: int|
        0 <= i < j < s.len() ==> str_le(#[trigger] s[i].display_name, #[trigger] s[j].display_name)
}

proof fn lemma_insert_keeps_order(s: Seq<ProgramEntryView>, e: ProgramEntryView)
    requires
        ordered_by_display(s),
    ensures
        ordered_by_display(insert_by_display(s, e)),
    decreases s.len(),
{
    lemma_insert_by_display(s, e);
    let r = insert_by_display(s, e);
    if s.len() == 0 {
    } else if !str_le(s[0].display_name, e.display_name) {
        lemma_str_le_total(s[0].display_name, e.display_name);
        assert forall|i: int, j: int| 0 <= i < j < r.len() implies str_le(
            #[trigger] r[i].display_name,
            #[trigger] r[j].display_name,
        ) by {
            if i == 0 {
                if j > 1 {
                    assert(str_le(s[0].display_name, s[j - 1].display_name));
                    lemma_str_le_trans(e.display_name, s[0].display_name, s[j - 1].display_name);
                }
            } else {
                assert(r[i] == s[i - 1] && r[j] == s[j - 1]);
            }
        }
    } else {
        let t = s.drop_first();
        assert(ordered_by_display(t)) by {
            assert forall|i: int, j: int| 0 <= i < j < t.len() implies str_le(
                #[trigger] t[i].display_name,
                #[trigger] t[j].display_name,
            ) by {
                assert(t[i] == s[i + 1] && t[j] == s[j + 1]);
            }
        }
        lemma_insert_keeps_order(t, e);
        lemma_insert_by_display(t, e);
        let q = insert_by_display(t, e);
        assert forall|i: int, j: int| 0 <= i < j < r.len() implies str_le(
            #[trigger] r[i].display_name,
            #[trigger] r[j].display_name,
        ) by {
            if i == 0 {
                let x = q[j - 1];
                assert(r[j] == x);
                if x != e {
                    let k = choose|k: int| 0 <= k < t.len() && t[k] == x;
                    assert(str_le(s[0].display_name, s[k + 1].display_name));
                }
            } else {
                assert(r[i] == q[i - 1] && r[j] == q[j - 1]);
            }
        }
    }
}

/// The menu's order is by display name: every entry's display name comes at
/// or before those of the entries after it.
pub proof fn lemma_menu_ordered(s: Seq<ProgramEntryView>)
    ensures
        ordered_by_display(sorted_by_display(s)),
    decreases s.len(),
{
    if s.len() > 0 {
        lemma_menu_ordered(s.drop_last());
        lemma_insert_keeps_order(sorted_by_display(s.drop_last()), s.last());
    }
}

} // verus!
