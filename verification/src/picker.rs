//! The state of the interactive export picker: which files are chosen, which
//! functions are exported under which names, and what each key does.
//!
//! The picker does no I/O. A key may ask its driver to load the chosen files
//! ([`Action::LoadFunctions`]) or to write the generated files
//! ([`Action::Generate`]); the driver reports back through
//! [`App::load_functions`] and [`App::set_status`].

use std::collections::HashSet;

use vstd::prelude::*;
use vstd::string::*;

use crate::chars::{contains_seq, contains_str, decimal, lemma_trimmed_idempotent, pop_char, push_char, push_decimal, trim, trimmed};
use crate::export::{export_name_for, prefixed_name, selected_model, SelectedFunction, SelectedModel};
use crate::types::{vsigs_model, VSignatureModel, ValidatedFunctionSignature};

verus! {

/// The screen the picker shows.
#[derive(Debug, Clone, Copy, PartialEq, Eq, Structural)]
pub enum Screen {
    FilePicker,
    Prefix,
    FunctionPicker,
    Rename,
    OutputName,
    Confirm,
    Done,
}

/// A key press, as far as the picker tells keys apart.
#[derive(Debug, Clone, Copy, PartialEq, Eq, Structural)]
pub enum Key {
    Down,
    Up,
    Enter,
    Esc,
    Backspace,
    Char(char),
    Other,
}

/// A function found in a chosen file.
#[derive(Debug, Clone)]
pub struct FunctionEntry {
    /// Index of the file (among the picker's files) the function comes from.
    pub file: usize,
    pub sig: ValidatedFunctionSignature,
    pub selected: bool,
    pub export_name: String,
    pub renamed: bool,
}

/// What the driver has to do after a key.
#[derive(Debug, Clone)]
pub enum Action {
    Nothing,
    /// Read and parse the files with these indices (each chosen file once,
    /// in no particular order), then call [`App::load_functions`].
    LoadFunctions(Vec<usize>),
    /// Generate and write the output for [`App::selected_functions`], then
    /// report with [`App::set_status`].
    Generate,
}

/// The outcome of loading one chosen file.
#[derive(Debug, Clone)]
pub enum FileLoad {
    Read { file: usize, signatures: Vec<ValidatedFunctionSignature> },
    Failed { message: String },
}

/// The interactive picker.
pub struct App {
    screen: Screen,
    file_count: usize,
    file_cursor: Option<usize>,
    selected_files: HashSet<usize>,
    entries: Vec<FunctionEntry>,
    fn_cursor: Option<usize>,
    rename_idx: Option<usize>,
    rename_buf: String,
    prefix_buf: String,
    output_stem: String,
    status: String,
}

// ---------------------------------------------------------------------------
// Models
// ---------------------------------------------------------------------------

/// Model of [`FunctionEntry`].
pub struct EntryModel {
    pub file: usize,
    pub sig: VSignatureModel,
    pub selected: bool,
    pub export_name: Seq<char>,
    pub renamed: bool,
}

/// Model of [`App`].
pub struct AppModel {
    pub screen: Screen,
    pub file_count: usize,
    pub file_cursor: Option<usize>,
    pub selected_files: Set<usize>,
    pub entries: Seq<EntryModel>,
    pub fn_cursor: Option<usize>,
    pub rename_idx: Option<usize>,
    pub rename_buf: Seq<char>,
    pub prefix_buf: Seq<char>,
    pub output_stem: Seq<char>,
    pub status: Seq<char>,
}

/// Model of [`Action`].
pub enum ActionModel {
    Nothing,
    LoadFunctions(Set<usize>),
    Generate,
}

/// Model of [`FileLoad`].
pub enum FileLoadModel {
    Read { file: usize, signatures: Seq<VSignatureModel> },
    Failed { message: Seq<char> },
}

impl View for FunctionEntry {
    type V = EntryModel;

    open spec fn view(&self) -> EntryModel {
        EntryModel {
            file: self.file,
            sig: self.sig@,
            selected: self.selected,
            export_name: self.export_name@,
            renamed: self.renamed,
        }
    }
}

/// The models of a sequence of entries.
pub open spec fn entries_model(v: Seq<FunctionEntry>) -> Seq<EntryModel> {
    v.map_values(|e: FunctionEntry| e@)
}

impl View for Action {
    type V = ActionModel;

    open spec fn view(&self) -> ActionModel {
        match self {
            Action::Nothing => ActionModel::Nothing,
            Action::LoadFunctions(v) => ActionModel::LoadFunctions(v@.to_set()),
            Action::Generate => ActionModel::Generate,
        }
    }
}

impl View for FileLoad {
    type V = FileLoadModel;

    open spec fn view(&self) -> FileLoadModel {
        match self {
            FileLoad::Read { file, signatures } => FileLoadModel::Read {
                file: *file,
                signatures: vsigs_model(signatures@),
            },
            FileLoad::Failed { message } => FileLoadModel::Failed { message: message@ },
        }
    }
}

/// The models of a sequence of file loads.
pub open spec fn loads_model(v: Seq<FileLoad>) -> Seq<FileLoadModel> {
    v.map_values(|l: FileLoad| l@)
}

impl View for App {
    type V = AppModel;

    closed spec fn view(&self) -> AppModel {
        AppModel {
            screen: self.screen,
            file_count: self.file_count,
            file_cursor: self.file_cursor,
            selected_files: self.selected_files@,
            entries: entries_model(self.entries@),
            fn_cursor: self.fn_cursor,
            rename_idx: self.rename_idx,
            rename_buf: self.rename_buf@,
            prefix_buf: self.prefix_buf@,
            output_stem: self.output_stem@,
            status: self.status@,
        }
    }
}

// ---------------------------------------------------------------------------
// Specification of the picker
// ---------------------------------------------------------------------------

/// A cursor over a list of `len` items, or the first place when nothing is there.
pub open spec fn cursor_ok(c: Option<usize>, len: int) -> bool {
    c matches Some(i) ==> (i < len || i == 0)
}

/// Every selected function is renamed, and at least one is selected.
pub open spec fn ready_to_export(es: Seq<EntryModel>) -> bool {
    &&& forall|i: int| 0 <= i < es.len() && (#[trigger] es[i]).selected ==> es[i].renamed
    &&& exists|i: int| 0 <= i < es.len() && (#[trigger] es[i]).selected
}

/// The invariant of the picker.
pub open spec fn picker_inv(m: AppModel) -> bool {
    &&& m.selected_files.finite()
    &&& cursor_ok(m.file_cursor, m.file_count as int)
    &&& cursor_ok(m.fn_cursor, m.entries.len() as int)
    &&& (m.rename_idx matches Some(i) ==> i < m.entries.len())
    &&& (m.screen == Screen::Rename ==> m.rename_idx is Some)
    &&& (m.rename_idx is Some ==> m.screen == Screen::Rename || m.screen == Screen::Done)
    // A renamed function is exported under a name that differs from its own.
    &&& (forall|i: int|
        0 <= i < m.entries.len() && (#[trigger] m.entries[i]).renamed ==> m.entries[i].export_name
            != m.entries[i].sig.name)
    &&& ((m.screen == Screen::OutputName || m.screen == Screen::Confirm) ==> ready_to_export(m.entries))
    &&& (m.screen == Screen::Confirm ==> m.output_stem.len() > 0 && trimmed(m.output_stem)
        == m.output_stem)
}

/// The next place of a cursor moved down over `len` items.
pub open spec fn cursor_down(c: Option<usize>, len: usize) -> usize {
    let last: int = if len > 0 {
        len - 1
    } else {
        0
    };
    match c {
        Some(i) => if i + 1 <= last {
            (i + 1) as usize
        } else {
            last as usize
        },
        None => 0,
    }
}

/// The next place of a cursor moved up.
pub open spec fn cursor_up(c: Option<usize>) -> usize {
    match c {
        Some(i) => if i > 0 {
            (i - 1) as usize
        } else {
            0
        },
        None => 0,
    }
}

/// `s` with `x` removed when it holds it, added otherwise.
pub open spec fn toggled(s: Set<usize>, x: usize) -> Set<usize> {
    if s.contains(x) {
        s.remove(x)
    } else {
        s.insert(x)
    }
}

/// The indices `0..n`.
pub open spec fn all_files(n: usize) -> Set<usize> {
    Set::new(|i: usize| i < n)
}

/// Each entry exported under `prefix` followed by its name; an entry counts
/// as renamed iff the prefix is not empty.
pub open spec fn with_prefix(es: Seq<EntryModel>, prefix: Seq<char>) -> Seq<EntryModel> {
    es.map_values(
        |e: EntryModel|
            EntryModel {
                export_name: prefixed_name(prefix, e.sig.name),
                renamed: prefix.len() > 0,
                ..e
            },
    )
}

/// The renamed entries marked selected or not, as `v` says.
pub open spec fn select_renamed(es: Seq<EntryModel>, v: bool) -> Seq<EntryModel> {
    es.map_values(|e: EntryModel| if e.renamed { EntryModel { selected: v, ..e } } else { e })
}

/// The number of entries that are not renamed.
pub open spec fn count_unrenamed(es: Seq<EntryModel>) -> nat
    decreases es.len(),
{
    if es.len() == 0 {
        0
    } else {
        count_unrenamed(es.drop_last()) + if es.last().renamed {
            0nat
        } else {
            1nat
        }
    }
}

/// The number of selected entries that are not renamed.
pub open spec fn count_selected_unrenamed(es: Seq<EntryModel>) -> nat
    decreases es.len(),
{
    if es.len() == 0 {
        0
    } else {
        count_selected_unrenamed(es.drop_last()) + if es.last().selected && !es.last().renamed {
            1nat
        } else {
            0nat
        }
    }
}

/// Every renamed entry is selected.
pub open spec fn all_renamed_selected(es: Seq<EntryModel>) -> bool {
    forall|i: int| 0 <= i < es.len() && (#[trigger] es[i]).renamed ==> es[i].selected
}

/// Some entry is selected.
pub open spec fn any_selected(es: Seq<EntryModel>) -> bool {
    exists|i: int| 0 <= i < es.len() && (#[trigger] es[i]).selected
}

/// What a key does on the file screen.
pub open spec fn file_picker_step(m: AppModel, key: Key) -> (AppModel, ActionModel) {
    match key {
        Key::Down | Key::Char('j') => (
            AppModel { file_cursor: Some(cursor_down(m.file_cursor, m.file_count)), ..m },
            ActionModel::Nothing,
        ),
        Key::Up | Key::Char('k') => (
            AppModel { file_cursor: Some(cursor_up(m.file_cursor)), ..m },
            ActionModel::Nothing,
        ),
        Key::Char(' ') => match m.file_cursor {
            Some(i) => (
                AppModel { selected_files: toggled(m.selected_files, i), ..m },
                ActionModel::Nothing,
            ),
            None => (m, ActionModel::Nothing),
        },
        Key::Enter => if m.selected_files.is_empty() {
            (
                AppModel { status: "Select at least one file (Space to toggle)."@, ..m },
                ActionModel::Nothing,
            )
        } else {
            (
                AppModel { screen: Screen::Prefix, ..m },
                ActionModel::LoadFunctions(m.selected_files),
            )
        },
        Key::Char('a') => if m.selected_files.len() == m.file_count {
            (AppModel { selected_files: Set::empty(), ..m }, ActionModel::Nothing)
        } else {
            (AppModel { selected_files: all_files(m.file_count), ..m }, ActionModel::Nothing)
        },
        _ => (m, ActionModel::Nothing),
    }
}

/// The status shown after a prefix is applied.
pub open spec fn prefix_status(prefix_buf: Seq<char>) -> Seq<char> {
    if prefix_buf.len() == 0 {
        "No prefix set \u{2014} you must rename every function before proceeding."@
    } else {
        "Prefix '"@ + prefix_buf + "' applied. You may still rename individual functions."@
    }
}

/// What a key does on the prefix screen.
pub open spec fn prefix_step(m: AppModel, key: Key) -> AppModel {
    match key {
        Key::Enter => AppModel {
            entries: with_prefix(m.entries, trimmed(m.prefix_buf)),
            screen: Screen::FunctionPicker,
            status: prefix_status(m.prefix_buf),
            ..m
        },
        Key::Esc => AppModel { screen: Screen::FilePicker, ..m },
        Key::Backspace => AppModel {
            prefix_buf: if m.prefix_buf.len() > 0 {
                m.prefix_buf.drop_last()
            } else {
                m.prefix_buf
            },
            ..m
        },
        Key::Char(c) => AppModel { prefix_buf: m.prefix_buf.push(c), ..m },
        _ => m,
    }
}

/// What a key does on the function screen.
pub open spec fn fn_picker_step(m: AppModel, key: Key) -> AppModel {
    let n = m.entries.len();
    match key {
        Key::Down | Key::Char('j') => if n > 0 {
            AppModel { fn_cursor: Some(cursor_down(m.fn_cursor, n as usize)), ..m }
        } else {
            m
        },
        Key::Up | Key::Char('k') => AppModel { fn_cursor: Some(cursor_up(m.fn_cursor)), ..m },
        Key::Char(' ') => match m.fn_cursor {
            Some(i) => if !m.entries[i as int].renamed {
                AppModel {
                    status: "'"@ + m.entries[i as int].sig.name
                        + "' must be renamed before it can be selected (press r)."@,
                    ..m
                }
            } else {
                AppModel {
                    entries: m.entries.update(
                        i as int,
                        EntryModel { selected: !m.entries[i as int].selected, ..m.entries[i as int] },
                    ),
                    status: Seq::empty(),
                    ..m
                }
            },
            None => m,
        },
        Key::Char('r') => match m.fn_cursor {
            Some(i) => AppModel {
                rename_idx: Some(i),
                rename_buf: m.entries[i as int].export_name,
                screen: Screen::Rename,
                ..m
            },
            None => m,
        },
        Key::Char('p') => AppModel { screen: Screen::Prefix, status: Seq::empty(), ..m },
        Key::Char('a') => AppModel {
            status: if count_unrenamed(m.entries) > 0 {
                "Cannot select all \u{2014} "@ + decimal(count_unrenamed(m.entries))
                    + " function(s) still need renaming."@
            } else {
                m.status
            },
            entries: select_renamed(m.entries, !all_renamed_selected(m.entries)),
            ..m
        },
        Key::Enter => if count_selected_unrenamed(m.entries) > 0 {
            AppModel {
                status: decimal(count_selected_unrenamed(m.entries))
                    + " selected function(s) still need renaming."@,
                ..m
            }
        } else if !any_selected(m.entries) {
            AppModel { status: "Select at least one function (Space to toggle)."@, ..m }
        } else {
            AppModel { status: Seq::empty(), screen: Screen::OutputName, ..m }
        },
        Key::Esc => AppModel { status: Seq::empty(), screen: Screen::FilePicker, ..m },
        _ => m,
    }
}

/// What a key does on the rename screen.
pub open spec fn rename_step(m: AppModel, key: Key) -> AppModel {
    match key {
        Key::Enter => match m.rename_idx {
            Some(i) => {
                let name = trimmed(m.rename_buf);
                if name.len() == 0 {
                    AppModel { status: "Name cannot be empty."@, ..m }
                } else if m.entries[i as int].sig.name == name {
                    AppModel { status: "Name needs to be different."@, ..m }
                } else {
                    AppModel {
                        entries: m.entries.update(
                            i as int,
                            EntryModel { export_name: name, renamed: true, ..m.entries[i as int] },
                        ),
                        rename_idx: None,
                        screen: Screen::FunctionPicker,
                        status: Seq::empty(),
                        ..m
                    }
                }
            },
            None => m,
        },
        Key::Esc => AppModel { rename_idx: None, screen: Screen::FunctionPicker, ..m },
        Key::Backspace => AppModel {
            rename_buf: if m.rename_buf.len() > 0 {
                m.rename_buf.drop_last()
            } else {
                m.rename_buf
            },
            ..m
        },
        Key::Char(c) => AppModel { rename_buf: m.rename_buf.push(c), ..m },
        _ => m,
    }
}

/// What a key does on the output-name screen.
pub open spec fn output_name_step(m: AppModel, key: Key) -> AppModel {
    match key {
        Key::Enter => {
            let stem = trimmed(m.output_stem);
            if stem.len() == 0 {
                AppModel { status: "Output name cannot be empty."@, ..m }
            } else {
                AppModel { output_stem: stem, screen: Screen::Confirm, ..m }
            }
        },
        Key::Esc => AppModel { screen: Screen::FunctionPicker, ..m },
        Key::Backspace => AppModel {
            output_stem: if m.output_stem.len() > 0 {
                m.output_stem.drop_last()
            } else {
                m.output_stem
            },
            ..m
        },
        Key::Char(c) => AppModel { output_stem: m.output_stem.push(c), ..m },
        _ => m,
    }
}

/// What a key does: `control` is whether Control, and no other modifier, is held.
/// Control+q ends the picker from any screen.
pub open spec fn key_step(m: AppModel, key: Key, control: bool) -> (AppModel, ActionModel) {
    if key == Key::Char('q') && control {
        (AppModel { screen: Screen::Done, ..m }, ActionModel::Nothing)
    } else {
        match m.screen {
            Screen::FilePicker => file_picker_step(m, key),
            Screen::Prefix => (prefix_step(m, key), ActionModel::Nothing),
            Screen::FunctionPicker => (fn_picker_step(m, key), ActionModel::Nothing),
            Screen::Rename => (rename_step(m, key), ActionModel::Nothing),
            Screen::OutputName => (output_name_step(m, key), ActionModel::Nothing),
            Screen::Confirm => match key {
                Key::Enter => (AppModel { screen: Screen::Done, ..m }, ActionModel::Generate),
                Key::Esc => (AppModel { screen: Screen::OutputName, ..m }, ActionModel::Nothing),
                _ => (m, ActionModel::Nothing),
            },
            Screen::Done => (m, ActionModel::Nothing),
        }
    }
}

/// The keys that the picker handles: every key, except that the chosen files
/// must exist when they are loaded, and the cursor must be on a function
/// when one is toggled or renamed.
pub open spec fn key_handled(m: AppModel, key: Key, control: bool) -> bool {
    if key == Key::Char('q') && control {
        true
    } else if m.screen == Screen::FilePicker && key == Key::Enter {
        forall|x: usize| #[trigger] m.selected_files.contains(x) ==> x < m.file_count
    } else if m.screen == Screen::FunctionPicker && (key == Key::Char(' ') || key == Key::Char(
        'r',
    )) {
        m.fn_cursor matches Some(i) ==> i < m.entries.len()
    } else {
        true
    }
}

/// The entries for the functions of one loaded file.
pub open spec fn entries_for(file: usize, sigs: Seq<VSignatureModel>) -> Seq<EntryModel> {
    sigs.map_values(
        |s: VSignatureModel|
            EntryModel { file, sig: s, selected: false, export_name: s.name, renamed: false },
    )
}

/// The entries for all loaded files, in order.
pub open spec fn loaded_entries(loads: Seq<FileLoadModel>) -> Seq<EntryModel>
    decreases loads.len(),
{
    if loads.len() == 0 {
        Seq::empty()
    } else {
        loaded_entries(loads.drop_last()) + match loads.last() {
            FileLoadModel::Read { file, signatures } => entries_for(file, signatures),
            FileLoadModel::Failed { .. } => Seq::empty(),
        }
    }
}

/// The status after loading: the message of the last failed load, if any.
pub open spec fn load_status(status: Seq<char>, loads: Seq<FileLoadModel>) -> Seq<char>
    decreases loads.len(),
{
    if loads.len() == 0 {
        status
    } else {
        match loads.last() {
            FileLoadModel::Failed { message } => message,
            FileLoadModel::Read { .. } => load_status(status, loads.drop_last()),
        }
    }
}

/// The picker after the chosen files were loaded.
pub open spec fn load_step(m: AppModel, loads: Seq<FileLoadModel>) -> AppModel {
    let es = loaded_entries(loads);
    AppModel {
        entries: es,
        fn_cursor: if es.len() > 0 {
            Some(0)
        } else {
            None
        },
        status: if es.len() == 0 {
            "No function signatures found in selected files."@
        } else {
            load_status(m.status, loads)
        },
        prefix_buf: Seq::empty(),
        ..m
    }
}

/// The functions chosen for export, with their export names, in order.
pub open spec fn chosen(es: Seq<EntryModel>) -> Seq<SelectedModel>
    decreases es.len(),
{
    if es.len() == 0 {
        Seq::empty()
    } else {
        chosen(es.drop_last()) + if es.last().selected {
            seq![SelectedModel { sig: es.last().sig, export_name: es.last().export_name }]
        } else {
            Seq::empty()
        }
    }
}


// ---------------------------------------------------------------------------
// Laws
// ---------------------------------------------------------------------------

/// The indices `0..n` form a finite set of `n` elements.
pub proof fn lemma_all_files(n: usize)
    ensures
        all_files(n).finite(),
        all_files(n).len() == n,
{
    let q = Seq::new(n as nat, |i: int| i as usize);
    assert(q.to_set() =~= all_files(n)) by {
        assert forall|x: usize| all_files(n).contains(x) implies q.to_set().contains(x) by {
            assert(q[x as int] == x);
        }
    }
    assert(q.no_duplicates());
    q.unique_seq_to_set();
    vstd::seq_lib::seq_to_set_is_finite(q);
}

/// Loaded entries are not renamed.
pub proof fn lemma_loaded_entries(loads: Seq<FileLoadModel>)
    ensures
        forall|i: int| 0 <= i < loaded_entries(loads).len() ==> !(#[trigger] loaded_entries(loads)[i]).renamed,
    decreases loads.len(),
{
    if loads.len() > 0 {
        lemma_loaded_entries(loads.drop_last());
        let a = loaded_entries(loads.drop_last());
        assert forall|i: int| 0 <= i < loaded_entries(loads).len() implies !(#[trigger] loaded_entries(loads)[i]).renamed by {
            if i >= a.len() {
                match loads.last() {
                    FileLoadModel::Read { file, signatures } => {
                        assert(loaded_entries(loads)[i] == entries_for(file, signatures)[i - a.len()]);
                    },
                    FileLoadModel::Failed { .. } => {},
                }
            } else {
                assert(loaded_entries(loads)[i] == a[i]);
            }
        }
    }
}

/// When no selected function lacks a new name, every selected function has one.
pub proof fn lemma_selected_renamed(es: Seq<EntryModel>)
    requires
        count_selected_unrenamed(es) == 0,
    ensures
        forall|i: int| 0 <= i < es.len() && (#[trigger] es[i]).selected ==> es[i].renamed,
    decreases es.len(),
{
    if es.len() > 0 {
        lemma_selected_renamed(es.drop_last());
        assert forall|i: int| 0 <= i < es.len() && (#[trigger] es[i]).selected implies es[i].renamed by {
            if i < es.len() - 1 {
                assert(es.drop_last()[i] == es[i]);
            }
        }
    }
}

/// Every key keeps the invariant of the picker; in particular a function is
/// only ever exported under a name different from its own, generation is
/// only asked for when at least one function is selected and every selected
/// function has a new name, and the output stem is then trimmed and not empty.
pub proof fn lemma_key_step_keeps_inv(m: AppModel, key: Key, control: bool)
    requires
        picker_inv(m),
        key_handled(m, key, control),
    ensures
        picker_inv(key_step(m, key, control).0),
{
    let r = key_step(m, key, control).0;
    if key == Key::Char('q') && control {
    } else {
        match m.screen {
            Screen::FilePicker => {
                match key {
                    Key::Char('a') => {
                        lemma_all_files(m.file_count);
                    },
                    _ => {},
                }
            },
            Screen::Prefix => {
                if key == Key::Enter {
                    let p = trimmed(m.prefix_buf);
                    let es = with_prefix(m.entries, p);
                    assert forall|i: int| 0 <= i < es.len() && (#[trigger] es[i]).renamed implies es[i].export_name
                        != es[i].sig.name by {
                        assert(es[i].export_name == p + m.entries[i].sig.name);
                        assert(es[i].export_name.len() != es[i].sig.name.len());
                    }
                }
            },
            Screen::FunctionPicker => {
                match key {
                    Key::Enter => {
                        if count_selected_unrenamed(m.entries) == 0 {
                            lemma_selected_renamed(m.entries);
                        }
                    },
                    Key::Char('a') => {
                        let es = select_renamed(m.entries, !all_renamed_selected(m.entries));
                        assert forall|i: int| 0 <= i < es.len() && (#[trigger] es[i]).renamed implies es[i].export_name
                            != es[i].sig.name by {
                            assert(m.entries[i].renamed);
                        }
                    },
                    Key::Char(' ') => {
                        if let Some(i) = m.fn_cursor {
                            if m.entries[i as int].renamed {
                                let es = r.entries;
                                assert forall|k: int| 0 <= k < es.len() && (#[trigger] es[k]).renamed implies es[k].export_name
                                    != es[k].sig.name by {
                                    assert(m.entries[k].renamed);
                                }
                            }
                        }
                    },
                    _ => {},
                }
            },
            Screen::Rename => {
                if key == Key::Enter {
                    if let Some(i) = m.rename_idx {
                        let name = trimmed(m.rename_buf);
                        if name.len() != 0 && m.entries[i as int].sig.name != name {
                            let es = r.entries;
                            assert forall|k: int| 0 <= k < es.len() && (#[trigger] es[k]).renamed implies es[k].export_name
                                != es[k].sig.name by {
                                if k != i {
                                    assert(m.entries[k].renamed);
                                }
                            }
                        }
                    }
                }
            },
            Screen::OutputName => {
                if key == Key::Enter {
                    lemma_trimmed_idempotent(m.output_stem);
                }
            },
            _ => {},
        }
    }
}

/// Control+q ends the picker, whatever screen it shows.
pub proof fn law_control_q_ends(m: AppModel)
    ensures
        key_step(m, Key::Char('q'), true).0.screen == Screen::Done,
        key_step(m, Key::Char('q'), true).1 == ActionModel::Nothing,
{
}

/// On a screen where text is typed, Backspace takes back the character just typed.
pub proof fn law_backspace_undoes_typing(m: AppModel, c: char)
    requires
        m.screen == Screen::Prefix || m.screen == Screen::Rename || m.screen == Screen::OutputName,
    ensures
        key_step(key_step(m, Key::Char(c), false).0, Key::Backspace, false).0 == m,
{
    let t = key_step(m, Key::Char(c), false).0;
    assert(m.prefix_buf.push(c).drop_last() =~= m.prefix_buf);
    assert(m.rename_buf.push(c).drop_last() =~= m.rename_buf);
    assert(m.output_stem.push(c).drop_last() =~= m.output_stem);
}

/// Applying a prefix exports every function under the trimmed prefix
/// followed by its name; the function then counts as renamed iff that prefix
/// is not empty.
pub proof fn law_prefix_applies_to_all(m: AppModel, i: int)
    requires
        m.screen == Screen::Prefix,
        0 <= i < m.entries.len(),
    ensures
        ({
            let r = key_step(m, Key::Enter, false).0;
            let p = trimmed(m.prefix_buf);
            &&& r.screen == Screen::FunctionPicker
            &&& r.entries.len() == m.entries.len()
            &&& r.entries[i].export_name == (if p.len() == 0 {
                m.entries[i].sig.name
            } else {
                p + m.entries[i].sig.name
            })
            &&& r.entries[i].renamed == (p.len() > 0)
            &&& r.entries[i].sig == m.entries[i].sig
            &&& r.entries[i].selected == m.entries[i].selected
        }),
{
}

/// Space twice on the file screen leaves the picker as it was: the file
/// under the cursor is selected and unselected again (or the other way
/// round), as a set of files.
pub proof fn law_space_twice_restores_files(m: AppModel)
    requires
        m.screen == Screen::FilePicker,
    ensures
        key_step(m, Key::Char(' '), false).1 == ActionModel::Nothing,
        key_step(key_step(m, Key::Char(' '), false).0, Key::Char(' '), false).0 == m,
{
    if let Some(i) = m.file_cursor {
        let s = m.selected_files;
        assert(toggled(toggled(s, i), i) =~= s);
    }
}

/// On the function screen, Space on a renamed function flips whether that
/// function is selected, and touches no other function; a second Space
/// flips it back, so the picker is as it was but for a cleared status.
pub proof fn law_space_toggles_function(m: AppModel, i: usize)
    requires
        m.screen == Screen::FunctionPicker,
        m.fn_cursor == Some(i),
        i < m.entries.len(),
        m.entries[i as int].renamed,
    ensures
        ({
            let r = key_step(m, Key::Char(' '), false).0;
            &&& r.screen == Screen::FunctionPicker
            &&& r.entries.len() == m.entries.len()
            &&& r.entries[i as int].selected == !m.entries[i as int].selected
            &&& r.entries[i as int].sig == m.entries[i as int].sig
            &&& r.entries[i as int].export_name == m.entries[i as int].export_name
            &&& r.entries[i as int].renamed == m.entries[i as int].renamed
            &&& r.entries[i as int].file == m.entries[i as int].file
            &&& forall|k: int| 0 <= k < m.entries.len() && k != i ==> #[trigger] r.entries[k] == m.entries[k]
            &&& key_step(r, Key::Char(' '), false).0 == AppModel { status: Seq::empty(), ..m }
        }),
{
    let r = key_step(m, Key::Char(' '), false).0;
    let t = key_step(r, Key::Char(' '), false).0;
    assert(t.entries =~= m.entries);
}

/// On the function screen, Space on a function that is not renamed selects
/// nothing: every function stays as it was.
pub proof fn law_space_needs_rename(m: AppModel, i: usize)
    requires
        m.screen == Screen::FunctionPicker,
        m.fn_cursor == Some(i),
        i < m.entries.len(),
        !m.entries[i as int].renamed,
    ensures
        key_step(m, Key::Char(' '), false).0.entries == m.entries,
        key_step(m, Key::Char(' '), false).0.screen == Screen::FunctionPicker,
{
}

/// On the function screen, `r` opens the rename of the function under the
/// cursor, starting from its current export name; Esc then goes back with
/// every function as it was.
pub proof fn law_r_renames_function_under_cursor(m: AppModel, i: usize)
    requires
        m.screen == Screen::FunctionPicker,
        m.fn_cursor == Some(i),
        i < m.entries.len(),
    ensures
        ({
            let r = key_step(m, Key::Char('r'), false).0;
            let back = key_step(r, Key::Esc, false).0;
            &&& r.screen == Screen::Rename
            &&& r.rename_idx == Some(i)
            &&& r.rename_buf == m.entries[i as int].export_name
            &&& r.entries == m.entries
            &&& back.screen == Screen::FunctionPicker
            &&& back.rename_idx is None
            &&& back.entries == m.entries
        }),
{
}

/// Confirming a rename changes the export name of the function being
/// renamed and of no other function.
pub proof fn law_rename_touches_only_its_function(m: AppModel, k: int)
    requires
        picker_inv(m),
        m.screen == Screen::Rename,
        0 <= k < m.entries.len(),
        m.rename_idx != Some(k as usize),
    ensures
        key_step(m, Key::Enter, false).0.entries[k] == m.entries[k],
        key_step(m, Key::Enter, false).0.entries.len() == m.entries.len(),
{
}

/// Putting a prefix on every entry twice is the same as doing it once.
pub proof fn lemma_with_prefix_idempotent(es: Seq<EntryModel>, p: Seq<char>)
    ensures
        with_prefix(with_prefix(es, p), p) == with_prefix(es, p),
{
    assert(with_prefix(with_prefix(es, p), p) =~= with_prefix(es, p));
}

/// Applying the prefix, going back to the prefix screen with `p` and
/// applying it again leaves the picker as the first application left it.
pub proof fn law_prefix_twice_is_once(m: AppModel)
    requires
        m.screen == Screen::Prefix,
    ensures
        ({
            let once = key_step(m, Key::Enter, false).0;
            let back = key_step(once, Key::Char('p'), false).0;
            key_step(back, Key::Enter, false).0 == once
        }),
{
    lemma_with_prefix_idempotent(m.entries, trimmed(m.prefix_buf));
}

/// A successful rename exports the function under the trimmed name typed,
/// which differs from the function's own name.
pub proof fn law_rename_sets_name(m: AppModel)
    requires
        picker_inv(m),
        m.screen == Screen::Rename,
        key_step(m, Key::Enter, false).0.screen == Screen::FunctionPicker,
    ensures
        ({
            let i = m.rename_idx->Some_0;
            let r = key_step(m, Key::Enter, false).0;
            &&& r.entries[i as int].export_name == trimmed(m.rename_buf)
            &&& r.entries[i as int].export_name != m.entries[i as int].sig.name
            &&& r.entries[i as int].renamed
            &&& r.rename_idx is None
        }),
{
}

/// Every function chosen for export comes from a selected entry, under that
/// entry's export name.
pub proof fn lemma_chosen_from_selected(es: Seq<EntryModel>, k: int)
    requires
        0 <= k < chosen(es).len(),
    ensures
        exists|i: int|
            0 <= i < es.len() && (#[trigger] es[i]).selected && chosen(es)[k] == (SelectedModel {
                sig: es[i].sig,
                export_name: es[i].export_name,
            }),
    decreases es.len(),
{
    let p = es.drop_last();
    if k < chosen(p).len() {
        lemma_chosen_from_selected(p, k);
        let i = choose|i: int|
            0 <= i < p.len() && (#[trigger] p[i]).selected && chosen(p)[k] == (SelectedModel {
                sig: p[i].sig,
                export_name: p[i].export_name,
            });
        assert(es[i] == p[i]);
    } else {
        let i = es.len() - 1;
        assert(es[i].selected);
    }
}

/// Generation is asked for only when at least one function is chosen, every
/// chosen function is exported under a name different from its own, and the
/// output stem is trimmed and not empty.
pub proof fn law_generate_only_when_ready(m: AppModel, key: Key, control: bool)
    requires
        picker_inv(m),
        key_step(m, key, control).1 == ActionModel::Generate,
    ensures
        chosen(m.entries).len() > 0,
        forall|k: int|
            0 <= k < chosen(m.entries).len() ==> (#[trigger] chosen(m.entries)[k]).export_name
                != chosen(m.entries)[k].sig.name,
        m.output_stem.len() > 0,
        trimmed(m.output_stem) == m.output_stem,
{
    assert(m.screen == Screen::Confirm);
    let es = m.entries;
    assert forall|k: int| 0 <= k < chosen(es).len() implies (#[trigger] chosen(es)[k]).export_name
        != chosen(es)[k].sig.name by {
        lemma_chosen_from_selected(es, k);
    }
    lemma_chosen_nonempty(es);
}

/// Some selected entry means some chosen function.
proof fn lemma_chosen_nonempty(es: Seq<EntryModel>)
    requires
        any_selected(es),
    ensures
        chosen(es).len() > 0,
    decreases es.len(),
{
    let p = es.drop_last();
    if !es.last().selected {
        let i = choose|i: int| 0 <= i < es.len() && (#[trigger] es[i]).selected;
        assert(p[i] == es[i]);
        lemma_chosen_nonempty(p);
    }
}

// ---------------------------------------------------------------------------
// Exec
// ---------------------------------------------------------------------------

/// The picker when it starts, over `file_count` files.
pub open spec fn initial_model(file_count: usize) -> AppModel {
    AppModel {
        screen: Screen::FilePicker,
        file_count,
        file_cursor: if file_count > 0 {
            Some(0)
        } else {
            None
        },
        selected_files: Set::empty(),
        entries: Seq::empty(),
        fn_cursor: None,
        rename_idx: None,
        rename_buf: Seq::empty(),
        prefix_buf: Seq::empty(),
        output_stem: "output"@,
        status: Seq::empty(),
    }
}

/// The next place of a cursor moved down over `len` items.
fn move_down(c: Option<usize>, len: usize) -> (r: usize)
    requires
        cursor_ok(c, len as int),
    ensures
        r == cursor_down(c, len),
{
    let last = if len > 0 {
        len - 1
    } else {
        0
    };
    match c {
        Some(i) => if i < last {
            i + 1
        } else {
            last
        },
        None => 0,
    }
}

/// The next place of a cursor moved up.
fn move_up(c: Option<usize>) -> (r: usize)
    ensures
        r == cursor_up(c),
{
    match c {
        Some(i) => if i > 0 {
            i - 1
        } else {
            0
        },
        None => 0,
    }
}


impl App {
    /// The picker over `file_count` files, on the file screen.
    pub fn new(file_count: usize) -> (r: App)
        ensures
            r@ == initial_model(file_count),
            picker_inv(r@),
    {
        let r = App {
            screen: Screen::FilePicker,
            file_count,
            file_cursor: if file_count > 0 {
                Some(0)
            } else {
                None
            },
            selected_files: HashSet::new(),
            entries: Vec::new(),
            fn_cursor: None,
            rename_idx: None,
            rename_buf: String::new(),
            prefix_buf: String::new(),
            output_stem: String::from_str("output"),
            status: String::new(),
        };
        proof {
            assert(entries_model(r.entries@) =~= Seq::<EntryModel>::empty());
            assert(r@ =~= initial_model(file_count));
        }
        r
    }

    /// The chosen files whose index is below the file count, each once.
    fn selected_below_count(&self) -> (v: Vec<usize>)
        ensures
            v@.no_duplicates(),
            forall|x: usize|
                #[trigger] v@.contains(x) <==> (self@.selected_files.contains(x) && x < self@.file_count),
    {
        broadcast use vstd::std_specs::hash::group_hash_axioms;

        let mut v: Vec<usize> = Vec::new();
        let mut i: usize = 0;
        while i < self.file_count
            invariant
                i <= self.file_count,
                forall|a: int, b: int| 0 <= a < b < v@.len() ==> v@[a] < v@[b],
                forall|k: int| 0 <= k < v@.len() ==> v@[k] < i,
                forall|x: usize|
                    #[trigger] v@.contains(x) <==> (self@.selected_files.contains(x) && x < i),
            decreases self.file_count - i,
        {
            if self.selected_files.contains(&i) {
                assert(self@.selected_files.contains(i));
                let ghost before = v@;
                v.push(i);
                proof {
                    assert forall|x: usize| #[trigger] v@.contains(x) <==> (self@.selected_files.contains(x) && x < i + 1) by {
                        if v@.contains(x) && x != i {
                            let k = choose|k: int| 0 <= k < v@.len() && v@[k] == x;
                            assert(before[k] == x);
                            assert(before.contains(x));
                        }
                        if x == i {
                            assert(v@[v@.len() - 1] == x);
                        } else if self@.selected_files.contains(x) && x < i {
                            assert(before.contains(x));
                            let k = choose|k: int| 0 <= k < before.len() && before[k] == x;
                            assert(v@[k] == x);
                        }
                    }
                }
            } else {
                proof {
                    assert forall|x: usize| #[trigger] v@.contains(x) <==> (self@.selected_files.contains(x) && x < i + 1) by {
                        if v@.contains(x) {
                            let k = choose|k: int| 0 <= k < v@.len() && v@[k] == x;
                            assert(v@[k] < i);
                        }
                    }
                }
            }
            i = i + 1;
        }
        v
    }

    fn handle_file_picker(&mut self, key: Key) -> (r: Action)
        requires
            picker_inv(old(self)@),
            key_handled(old(self)@, key, false),
            old(self)@.screen == Screen::FilePicker,
        ensures
            (final(self)@, r@) == file_picker_step(old(self)@, key),
            r matches Action::LoadFunctions(v) ==> v@.no_duplicates(),
    {
        broadcast use vstd::std_specs::hash::group_hash_axioms;

        match key {
            Key::Down | Key::Char('j') => {
                self.file_cursor = Some(move_down(self.file_cursor, self.file_count));
                Action::Nothing
            },
            Key::Up | Key::Char('k') => {
                self.file_cursor = Some(move_up(self.file_cursor));
                Action::Nothing
            },
            Key::Char(' ') => {
                if let Some(i) = self.file_cursor {
                    if self.selected_files.contains(&i) {
                        self.selected_files.remove(&i);
                    } else {
                        self.selected_files.insert(i);
                    }
                }
                Action::Nothing
            },
            Key::Enter => {
                if self.selected_files.is_empty() {
                    self.status = String::from_str("Select at least one file (Space to toggle).");
                    return Action::Nothing;
                }
                let chosen = self.selected_below_count();
                proof {
                    assert(chosen@.to_set() =~= self@.selected_files);
                }
                self.screen = Screen::Prefix;
                Action::LoadFunctions(chosen)
            },
            Key::Char('a') => {
                if self.selected_files.len() == self.file_count {
                    self.selected_files = HashSet::new();
                } else {
                    let mut all: HashSet<usize> = HashSet::new();
                    let mut i: usize = 0;
                    while i < self.file_count
                        invariant
                            i <= self.file_count,
                            all@ =~= all_files(i),
                        decreases self.file_count - i,
                    {
                        all.insert(i);
                        assert(all@ =~= all_files((i + 1) as usize));
                        i = i + 1;
                    }
                    self.selected_files = all;
                }
                Action::Nothing
            },
            _ => Action::Nothing,
        }
    }

    fn handle_prefix(&mut self, key: Key)
        requires
            old(self)@.screen == Screen::Prefix,
        ensures
            final(self)@ == prefix_step(old(self)@, key),
    {
        match key {
            Key::Enter => {
                self.apply_prefix();
                self.screen = Screen::FunctionPicker;
                self.status = if self.prefix_buf.as_str().is_empty() {
                    String::from_str(
                        "No prefix set \u{2014} you must rename every function before proceeding.",
                    )
                } else {
                    let mut st = String::from_str("Prefix '");
                    st.append(self.prefix_buf.as_str());
                    st.append("' applied. You may still rename individual functions.");
                    st
                };
            },
            Key::Esc => {
                self.screen = Screen::FilePicker;
            },
            Key::Backspace => {
                pop_char(&mut self.prefix_buf);
            },
            Key::Char(c) => {
                push_char(&mut self.prefix_buf, c);
            },
            _ => {},
        }
    }

    /// Whether every renamed function is selected.
    fn every_renamed_selected(&self) -> (r: bool)
        ensures
            r == all_renamed_selected(self@.entries),
    {
        let ghost es = self@.entries;
        let mut i: usize = 0;
        while i < self.entries.len()
            invariant
                i <= self.entries@.len(),
                es == entries_model(self.entries@),
                forall|k: int| 0 <= k < i && (#[trigger] es[k]).renamed ==> es[k].selected,
            decreases self.entries@.len() - i,
        {
            if self.entries[i].renamed && !self.entries[i].selected {
                assert(es[i as int].renamed && !es[i as int].selected);
                return false;
            }
            i = i + 1;
        }
        true
    }

    /// Whether some function is selected.
    fn some_selected(&self) -> (r: bool)
        ensures
            r == any_selected(self@.entries),
    {
        let ghost es = self@.entries;
        let mut i: usize = 0;
        while i < self.entries.len()
            invariant
                i <= self.entries@.len(),
                es == entries_model(self.entries@),
                forall|k: int| 0 <= k < i ==> !(#[trigger] es[k]).selected,
            decreases self.entries@.len() - i,
        {
            if self.entries[i].selected {
                assert(es[i as int].selected);
                return true;
            }
            i = i + 1;
        }
        false
    }

    /// The number of functions that are not renamed.
    fn unrenamed_count(&self) -> (r: usize)
        ensures
            r == count_unrenamed(self@.entries),
    {
        let ghost es = self@.entries;
        let mut n: usize = 0;
        let mut i: usize = 0;
        while i < self.entries.len()
            invariant
                i <= self.entries@.len(),
                es == entries_model(self.entries@),
                n == count_unrenamed(es.take(i as int)),
                n <= i,
            decreases self.entries@.len() - i,
        {
            assert(es.take(i + 1).drop_last() =~= es.take(i as int));
            if !self.entries[i].renamed {
                n = n + 1;
            }
            i = i + 1;
        }
        assert(es.take(es.len() as int) =~= es);
        n
    }

    /// The number of selected functions that are not renamed.
    fn selected_unrenamed_count(&self) -> (r: usize)
        ensures
            r == count_selected_unrenamed(self@.entries),
    {
        let ghost es = self@.entries;
        let mut n: usize = 0;
        let mut i: usize = 0;
        while i < self.entries.len()
            invariant
                i <= self.entries@.len(),
                es == entries_model(self.entries@),
                n == count_selected_unrenamed(es.take(i as int)),
                n <= i,
            decreases self.entries@.len() - i,
        {
            assert(es.take(i + 1).drop_last() =~= es.take(i as int));
            if self.entries[i].selected && !self.entries[i].renamed {
                n = n + 1;
            }
            i = i + 1;
        }
        assert(es.take(es.len() as int) =~= es);
        n
    }

    /// Marks every renamed function selected or not, as `v` says.
    fn set_renamed_selected(&mut self, v: bool)
        ensures
            final(self)@ == (AppModel {
                entries: select_renamed(old(self)@.entries, v),
                ..old(self)@
            }),
    {
        let ghost old_entries = old(self)@.entries;
        let mut i: usize = 0;
        while i < self.entries.len()
            invariant
                i <= self.entries@.len(),
                old_entries.len() == self.entries@.len(),
                forall|k: int|
                    0 <= k < self.entries@.len() ==> #[trigger] entries_model(self.entries@)[k]
                        == if k < i {
                        select_renamed(old_entries, v)[k]
                    } else {
                        old_entries[k]
                    },
                self@ == (AppModel { entries: entries_model(self.entries@), ..old(self)@ }),
            decreases self.entries@.len() - i,
        {
            let ghost before = self.entries@;
            if self.entries[i].renamed {
                self.entries[i].selected = v;
            }
            proof {
                assert(entries_model(before)[i as int] == old_entries[i as int]);
                let e = entries_model(self.entries@)[i as int];
                let w = select_renamed(old_entries, v)[i as int];
                assert(e == w);
                assert forall|k: int| 0 <= k < self.entries@.len() && k != i implies #[trigger] entries_model(self.entries@)[k] == entries_model(before)[k] by {}
            }
            i = i + 1;
        }
        proof {
            assert(entries_model(self.entries@) =~= select_renamed(old_entries, v));
        }
    }

    fn handle_fn_picker(&mut self, key: Key)
        requires
            old(self)@.screen == Screen::FunctionPicker,
            picker_inv(old(self)@),
            key_handled(old(self)@, key, false),
        ensures
            final(self)@ == fn_picker_step(old(self)@, key),
    {
        match key {
            Key::Down | Key::Char('j') => {
                let n = self.entries.len();
                if n > 0 {
                    self.fn_cursor = Some(move_down(self.fn_cursor, n));
                }
            },
            Key::Up | Key::Char('k') => {
                self.fn_cursor = Some(move_up(self.fn_cursor));
            },
            Key::Char(' ') => {
                if let Some(i) = self.fn_cursor {
                    if !self.entries[i].renamed {
                        let mut st = String::from_str("'");
                        st.append(self.entries[i].sig.name.as_str());
                        st.append("' must be renamed before it can be selected (press r).");
                        self.status = st;
                        return;
                    }
                    let ghost before = self.entries@;
                    let sel = self.entries[i].selected;
                    self.entries[i].selected = !sel;
                    self.status = String::new();
                    proof {
                        assert(entries_model(self.entries@) =~= entries_model(before).update(
                            i as int,
                            EntryModel { selected: !sel, ..entries_model(before)[i as int] },
                        ));
                    }
                }
            },
            Key::Char('r') => {
                if let Some(i) = self.fn_cursor {
                    self.rename_idx = Some(i);
                    self.rename_buf = self.entries[i].export_name.clone();
                    self.screen = Screen::Rename;
                }
            },
            Key::Char('p') => {
                self.screen = Screen::Prefix;
                self.status = String::new();
            },
            Key::Char('a') => {
                let all = self.every_renamed_selected();
                let unrenamed = self.unrenamed_count();
                if unrenamed > 0 {
                    let mut st = String::from_str("Cannot select all \u{2014} ");
                    push_decimal(&mut st, unrenamed as u64);
                    st.append(" function(s) still need renaming.");
                    self.status = st;
                }
                self.set_renamed_selected(!all);
            },
            Key::Enter => {
                let pending = self.selected_unrenamed_count();
                if pending > 0 {
                    let mut st = String::new();
                    push_decimal(&mut st, pending as u64);
                    st.append(" selected function(s) still need renaming.");
                    self.status = st;
                    return;
                }
                if !self.some_selected() {
                    self.status = String::from_str("Select at least one function (Space to toggle).");
                    return;
                }
                self.status = String::new();
                self.screen = Screen::OutputName;
            },
            Key::Esc => {
                self.status = String::new();
                self.screen = Screen::FilePicker;
            },
            _ => {},
        }
    }

    fn handle_rename(&mut self, key: Key)
        requires
            old(self)@.screen == Screen::Rename,
            picker_inv(old(self)@),
        ensures
            final(self)@ == rename_step(old(self)@, key),
    {
        match key {
            Key::Enter => {
                if let Some(i) = self.rename_idx {
                    let name = trim(&self.rename_buf);
                    if name.as_str().is_empty() {
                        self.status = String::from_str("Name cannot be empty.");
                    } else if self.entries[i].sig.name == name {
                        self.status = String::from_str("Name needs to be different.");
                    } else {
                        let ghost before = self.entries@;
                        let ghost nm = name@;
                        self.entries[i].export_name = name;
                        self.entries[i].renamed = true;
                        self.rename_idx = None;
                        self.screen = Screen::FunctionPicker;
                        self.status = String::new();
                        proof {
                            assert(entries_model(self.entries@) =~= entries_model(before).update(
                                i as int,
                                EntryModel {
                                    export_name: nm,
                                    renamed: true,
                                    ..entries_model(before)[i as int]
                                },
                            ));
                        }
                    }
                }
            },
            Key::Esc => {
                self.rename_idx = None;
                self.screen = Screen::FunctionPicker;
            },
            Key::Backspace => {
                pop_char(&mut self.rename_buf);
            },
            Key::Char(c) => {
                push_char(&mut self.rename_buf, c);
            },
            _ => {},
        }
    }

    fn handle_output_name(&mut self, key: Key)
        requires
            old(self)@.screen == Screen::OutputName,
        ensures
            final(self)@ == output_name_step(old(self)@, key),
    {
        match key {
            Key::Enter => {
                let stem = trim(&self.output_stem);
                if stem.as_str().is_empty() {
                    self.status = String::from_str("Output name cannot be empty.");
                } else {
                    self.output_stem = stem;
                    self.screen = Screen::Confirm;
                }
            },
            Key::Esc => {
                self.screen = Screen::FunctionPicker;
            },
            Key::Backspace => {
                pop_char(&mut self.output_stem);
            },
            Key::Char(c) => {
                push_char(&mut self.output_stem, c);
            },
            _ => {},
        }
    }

    /// Handles a key; `control` is whether Control, and no other modifier,
    /// is held. Returns what the driver has to do next.
    pub fn handle_key(&mut self, key: Key, control: bool) -> (r: Action)
        requires
            picker_inv(old(self)@),
            key_handled(old(self)@, key, control),
        ensures
            (final(self)@, r@) == key_step(old(self)@, key, control),
            picker_inv(final(self)@),
            r matches Action::LoadFunctions(v) ==> v@.no_duplicates(),
    {
        proof {
            lemma_key_step_keeps_inv(self@, key, control);
        }
        if control {
            if let Key::Char('q') = key {
                self.screen = Screen::Done;
                return Action::Nothing;
            }
        }
        match self.screen {
            Screen::FilePicker => self.handle_file_picker(key),
            Screen::Prefix => {
                self.handle_prefix(key);
                Action::Nothing
            },
            Screen::FunctionPicker => {
                self.handle_fn_picker(key);
                Action::Nothing
            },
            Screen::Rename => {
                self.handle_rename(key);
                Action::Nothing
            },
            Screen::OutputName => {
                self.handle_output_name(key);
                Action::Nothing
            },
            Screen::Confirm => match key {
                Key::Enter => {
                    self.screen = Screen::Done;
                    Action::Generate
                },
                Key::Esc => {
                    self.screen = Screen::OutputName;
                    Action::Nothing
                },
                _ => Action::Nothing,
            },
            Screen::Done => Action::Nothing,
        }
    }

    /// Takes in the functions of the chosen files (the driver's answer to
    /// [`Action::LoadFunctions`]), in order: each starts
    /// unselected and exported under its own name. A failed load sets the
    /// status to its message; when no function was found at all, the status
    /// says so. The prefix being typed is cleared.
    pub fn load_functions(&mut self, loads: Vec<FileLoad>)
        requires
            picker_inv(old(self)@),
            old(self)@.screen == Screen::Prefix,
        ensures
            final(self)@ == load_step(old(self)@, loads_model(loads@)),
            picker_inv(final(self)@),
    {
        let ghost lm = loads_model(loads@);
        let mut entries: Vec<FunctionEntry> = Vec::new();
        let mut k: usize = 0;
        while k < loads.len()
            invariant
                k <= loads@.len(),
                lm == loads_model(loads@),
                entries_model(entries@) == loaded_entries(lm.take(k as int)),
                self.status@ == load_status(old(self)@.status, lm.take(k as int)),
                self@ == (AppModel { status: self.status@, ..old(self)@ }),
            decreases loads@.len() - k,
        {
            proof {
                assert(lm.take(k + 1).drop_last() =~= lm.take(k as int));
                assert(lm.take(k + 1).last() == loads@[k as int]@);
            }
            match &loads[k] {
                FileLoad::Read { file, signatures } => {
                    let ghost before = entries_model(entries@);
                    let mut j: usize = 0;
                    while j < signatures.len()
                        invariant
                            j <= signatures@.len(),
                            entries_model(entries@) == before + entries_for(
                                *file,
                                vsigs_model(signatures@).take(j as int),
                            ),
                        decreases signatures@.len() - j,
                    {
                        let sig = signatures[j].duplicate();
                        let export_name = sig.name.clone();
                        let ghost prev = entries@;
                        entries.push(
                            FunctionEntry {
                                file: *file,
                                sig,
                                selected: false,
                                export_name,
                                renamed: false,
                            },
                        );
                        proof {
                            let vs = vsigs_model(signatures@);
                            assert(entries_model(entries@) =~= entries_model(prev).push(entries@[entries@.len() - 1]@));
                            assert(entries@[entries@.len() - 1]@ == (EntryModel { file: *file, sig: vs[j as int], selected: false, export_name: vs[j as int].name, renamed: false }));
                            assert(vs.take(j + 1) =~= vs.take(j as int).push(vs[j as int]));
                            assert(entries_for(*file, vs.take(j + 1)) =~= entries_for(*file, vs.take(j as int)).push(
                                EntryModel { file: *file, sig: vs[j as int], selected: false, export_name: vs[j as int].name, renamed: false },
                            ));
                            assert(entries_model(entries@) =~= before + entries_for(*file, vs.take(j + 1)));
                        }
                        j = j + 1;
                    }
                    proof {
                        assert(vsigs_model(signatures@).take(signatures@.len() as int) =~= vsigs_model(
                            signatures@,
                        ));
                    }
                },
                FileLoad::Failed { message } => {
                    self.status = message.clone();
                    proof {
                        assert(entries_model(entries@) =~= loaded_entries(lm.take(k as int))
                            + Seq::<EntryModel>::empty());
                    }
                },
            }
            k = k + 1;
        }
        proof {
            assert(lm.take(lm.len() as int) =~= lm);
        }
        if entries.len() == 0 {
            self.status = String::from_str("No function signatures found in selected files.");
        }
        self.fn_cursor = if entries.len() > 0 {
            Some(0)
        } else {
            None
        };
        self.entries = entries;
        self.prefix_buf = String::new();
        proof {
            let m = old(self)@;
            let es = loaded_entries(lm);
            assert forall|i: int| 0 <= i < es.len() implies !(#[trigger] es[i]).renamed by {
                lemma_loaded_entries(lm);
            }
        }
    }

    /// Sets the status line (used to report the outcome of generation).
    pub fn set_status(&mut self, status: String)
        requires
            picker_inv(old(self)@),
        ensures
            final(self)@ == (AppModel { status: status@, ..old(self)@ }),
            picker_inv(final(self)@),
    {
        self.status = status;
    }

    /// Takes the file cursor back after the file list was drawn.
    pub fn sync_file_cursor(&mut self, cursor: Option<usize>)
        requires
            picker_inv(old(self)@),
            cursor_ok(cursor, old(self)@.file_count as int),
        ensures
            final(self)@ == (AppModel { file_cursor: cursor, ..old(self)@ }),
            picker_inv(final(self)@),
    {
        self.file_cursor = cursor;
    }

    /// Takes the function cursor back after the function list was drawn.
    pub fn sync_fn_cursor(&mut self, cursor: Option<usize>)
        requires
            picker_inv(old(self)@),
            cursor_ok(cursor, old(self)@.entries.len() as int),
        ensures
            final(self)@ == (AppModel { fn_cursor: cursor, ..old(self)@ }),
            picker_inv(final(self)@),
    {
        self.fn_cursor = cursor;
    }

    /// Whether the picker has finished.
    pub fn is_done(&self) -> (r: bool)
        ensures
            r == (self@.screen == Screen::Done),
    {
        self.screen == Screen::Done
    }

    /// The selected functions with their export names, in order.
    pub fn selected_functions(&self) -> (r: Vec<SelectedFunction>)
        ensures
            selected_model(r@) == chosen(self@.entries),
    {
        let ghost es = self@.entries;
        let mut r: Vec<SelectedFunction> = Vec::new();
        let mut i: usize = 0;
        while i < self.entries.len()
            invariant
                i <= self.entries@.len(),
                es == entries_model(self.entries@),
                selected_model(r@) == chosen(es.take(i as int)),
            decreases self.entries@.len() - i,
        {
            let ghost before = selected_model(r@);
            proof {
                assert(es.take(i + 1).drop_last() =~= es.take(i as int));
                assert(es.take(i + 1).last() == es[i as int]);
            }
            if self.entries[i].selected {
                r.push(
                    SelectedFunction {
                        sig: self.entries[i].sig.duplicate(),
                        export_name: self.entries[i].export_name.clone(),
                    },
                );
                assert(selected_model(r@) =~= before + seq![
                    SelectedModel { sig: es[i as int].sig, export_name: es[i as int].export_name },
                ]);
            } else {
                assert(selected_model(r@) =~= before + Seq::<SelectedModel>::empty());
            }
            i = i + 1;
        }
        assert(es.take(es.len() as int) =~= es);
        r
    }

    /// Whether the picker handles `key` in its present state (see
    /// [`key_handled`]); a driver tests this before [`App::handle_key`].
    pub fn accepts_key(&self, key: Key, control: bool) -> (r: bool)
        requires
            picker_inv(self@),
        ensures
            r == key_handled(self@, key, control),
    {
        broadcast use vstd::std_specs::hash::group_hash_axioms;

        if control {
            if let Key::Char('q') = key {
                return true;
            }
        }
        match (self.screen, key) {
            (Screen::FilePicker, Key::Enter) => {
                let below = self.selected_below_count();
                let r = below.len() == self.selected_files.len();
                proof {
                    let sel = self@.selected_files;
                    let bs = below@.to_set();
                    below@.unique_seq_to_set();
                    assert(bs.subset_of(sel));
                    if forall|x: usize| #[trigger] sel.contains(x) ==> x < self@.file_count {
                        assert(bs =~= sel);
                    } else {
                        let x = choose|x: usize| #[trigger] sel.contains(x) && !(x < self@.file_count);
                        assert(bs.subset_of(sel.remove(x)));
                        vstd::set_lib::lemma_len_subset(bs, sel.remove(x));
                    }
                }
                r
            },
            (Screen::FunctionPicker, Key::Char(' ')) | (Screen::FunctionPicker, Key::Char('r')) => {
                match self.fn_cursor {
                    Some(i) => i < self.entries.len(),
                    None => true,
                }
            },
            _ => true,
        }
    }

    /// The screen shown.
    pub fn screen(&self) -> (r: Screen)
        ensures
            r == self@.screen,
    {
        self.screen
    }

    /// The number of files offered.
    pub fn file_count(&self) -> (r: usize)
        ensures
            r == self@.file_count,
    {
        self.file_count
    }

    /// The file cursor.
    pub fn file_cursor(&self) -> (r: Option<usize>)
        ensures
            r == self@.file_cursor,
    {
        self.file_cursor
    }

    /// Whether file `i` is chosen.
    pub fn is_file_selected(&self, i: usize) -> (r: bool)
        ensures
            r == self@.selected_files.contains(i),
    {
        broadcast use vstd::std_specs::hash::group_hash_axioms;

        self.selected_files.contains(&i)
    }

    /// The functions found in the chosen files.
    pub fn entries(&self) -> (r: &Vec<FunctionEntry>)
        ensures
            entries_model(r@) == self@.entries,
    {
        &self.entries
    }

    /// The function cursor.
    pub fn fn_cursor(&self) -> (r: Option<usize>)
        ensures
            r == self@.fn_cursor,
    {
        self.fn_cursor
    }

    /// The function being renamed, if any.
    pub fn rename_idx(&self) -> (r: Option<usize>)
        ensures
            r == self@.rename_idx,
    {
        self.rename_idx
    }

    /// The name being typed on the rename screen.
    pub fn rename_buf(&self) -> (r: &str)
        ensures
            r@ == self@.rename_buf,
    {
        self.rename_buf.as_str()
    }

    /// The prefix being typed on the prefix screen.
    pub fn prefix_buf(&self) -> (r: &str)
        ensures
            r@ == self@.prefix_buf,
    {
        self.prefix_buf.as_str()
    }

    /// The stem of the output files.
    pub fn output_stem(&self) -> (r: &str)
        ensures
            r@ == self@.output_stem,
    {
        self.output_stem.as_str()
    }

    /// The status line.
    pub fn status(&self) -> (r: &str)
        ensures
            r@ == self@.status,
    {
        self.status.as_str()
    }

    /// The number of functions that still need a new name.
    pub fn needs_rename_count(&self) -> (r: usize)
        ensures
            r == count_unrenamed(self@.entries),
    {
        self.unrenamed_count()
    }

    /// The name function `i` would be exported under with the prefix typed so far.
    pub fn preview_name(&self, i: usize) -> (r: String)
        requires
            i < self@.entries.len(),
        ensures
            r@ == prefixed_name(trimmed(self@.prefix_buf), self@.entries[i as int].sig.name),
    {
        let prefix = trim(&self.prefix_buf);
        export_name_for(prefix.as_str(), self.entries[i].sig.name.as_str())
    }

    fn apply_prefix(&mut self)
        ensures
            final(self)@ == (AppModel {
                entries: with_prefix(old(self)@.entries, trimmed(old(self)@.prefix_buf)),
                ..old(self)@
            }),
    {
        let prefix = trim(&self.prefix_buf);
        let ghost old_entries = entries_model(self.entries@);
        let mut i: usize = 0;
        while i < self.entries.len()
            invariant
                i <= self.entries@.len(),
                old_entries.len() == self.entries@.len(),
                forall|k: int|
                    0 <= k < self.entries@.len() ==> #[trigger] entries_model(self.entries@)[k]
                        == if k < i {
                        with_prefix(old_entries, prefix@)[k]
                    } else {
                        old_entries[k]
                    },
                self@ == (AppModel { entries: entries_model(self.entries@), ..old(self)@ }),
                prefix@ == trimmed(old(self)@.prefix_buf),
            decreases self.entries@.len() - i,
        {
            let name = crate::export::export_name_for(prefix.as_str(), self.entries[i].sig.name.as_str());
            let renamed = !prefix.as_str().is_empty();
            let export_name = if renamed { name } else { self.entries[i].sig.name.clone() };
            proof {
                if !renamed {
                    assert(prefix@.len() == 0);
                }
            }
            let ghost before = self.entries@;
            self.entries[i].export_name = export_name;
            self.entries[i].renamed = renamed;
            proof {
                assert(self.entries@ == before.update(i as int, self.entries@[i as int]));
                let e = entries_model(self.entries@)[i as int];
                let w = with_prefix(old_entries, prefix@)[i as int];
                assert(entries_model(before)[i as int] == old_entries[i as int]);
                assert(e.sig == w.sig);
                assert(e.file == w.file);
                assert(e.selected == w.selected);
                assert(e.renamed == w.renamed);
                assert(e.export_name == w.export_name);
                assert(e == w);
                assert forall|k: int| 0 <= k < self.entries@.len() && k != i implies #[trigger] entries_model(self.entries@)[k] == entries_model(before)[k] by {}
            }
            i = i + 1;
        }
        proof {
            assert(entries_model(self.entries@) =~= with_prefix(old_entries, prefix@));
        }
    }
}


/// How an entry is marked in the function list.
#[derive(Debug, Clone, Copy, PartialEq, Eq, Structural)]
pub enum EntryTag {
    /// Exported under another name, which is shown.
    Alias,
    /// Still needs a new name.
    NeedsRename,
    /// Nothing to show.
    Plain,
}

/// The mark of an entry: its export name when that differs from its own
/// name, else a warning when it is not renamed, else nothing.
pub open spec fn entry_tag_of(e: EntryModel) -> EntryTag {
    if e.export_name != e.sig.name {
        EntryTag::Alias
    } else if !e.renamed {
        EntryTag::NeedsRename
    } else {
        EntryTag::Plain
    }
}

impl FunctionEntry {
    /// The mark of this entry in the function list.
    pub fn tag(&self) -> (r: EntryTag)
        ensures
            r == entry_tag_of(self@),
    {
        if self.export_name != self.sig.name {
            EntryTag::Alias
        } else if !self.renamed {
            EntryTag::NeedsRename
        } else {
            EntryTag::Plain
        }
    }
}

/// The keys of the function screen, as its title lists them.
pub open spec fn fn_keys_text() -> Seq<char> {
    "  [Space=toggle  r=rename  p=prefix  a=all  Enter=next  Esc=back] "@
}

/// The title of the function screen when `unrenamed` functions still need
/// a new name.
pub open spec fn fn_title_text(unrenamed: nat) -> Seq<char> {
    if unrenamed > 0 {
        " \u{192}  Select functions \u{2014} \u{26a0} "@ + decimal(unrenamed) + " need renaming"@
            + fn_keys_text()
    } else {
        " \u{192}  Select functions"@ + fn_keys_text()
    }
}

impl App {
    /// The title of the function screen.
    pub fn fn_picker_title(&self) -> (r: String)
        ensures
            r@ == fn_title_text(count_unrenamed(self@.entries)),
    {
        let n = self.unrenamed_count();
        if n > 0 {
            let mut t = String::from_str(" \u{192}  Select functions \u{2014} \u{26a0} ");
            push_decimal(&mut t, n as u64);
            t.append(" need renaming");
            t.append("  [Space=toggle  r=rename  p=prefix  a=all  Enter=next  Esc=back] ");
            t
        } else {
            let mut t = String::from_str(" \u{192}  Select functions");
            t.append("  [Space=toggle  r=rename  p=prefix  a=all  Enter=next  Esc=back] ");
            t
        }
    }
}

/// How the status line is shown.
#[derive(Debug, Clone, Copy, PartialEq, Eq, Structural)]
pub enum StatusTone {
    Error,
    Applied,
    Plain,
}

/// The tone of a status: an error when it mentions `Error`, `cannot`,
/// `must` or `need`; applied when it mentions `applied`; plain otherwise.
pub open spec fn tone_of(status: Seq<char>) -> StatusTone {
    if contains_seq(status, "Error"@) || contains_seq(status, "cannot"@) || contains_seq(
        status,
        "must"@,
    ) || contains_seq(status, "need"@) {
        StatusTone::Error
    } else if contains_seq(status, "applied"@) {
        StatusTone::Applied
    } else {
        StatusTone::Plain
    }
}

/// The tone in which a status line is shown.
pub fn status_tone(status: &str) -> (r: StatusTone)
    ensures
        r == tone_of(status@),
{
    if contains_str(status, "Error") || contains_str(status, "cannot") || contains_str(status, "must")
        || contains_str(status, "need") {
        StatusTone::Error
    } else if contains_str(status, "applied") {
        StatusTone::Applied
    } else {
        StatusTone::Plain
    }
}

} // verus!
