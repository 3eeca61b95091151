//! Builds the argument string of each work item from the shared template, and
//! takes an argument string apart into the words a process is started with.

use vstd::prelude::*;
use vstd::string::*;
use crate::text::{char_is_whitespace, chars_of, is_whitespace, text_views};

verus! {

/// The flag that introduces the subject of a work item.
pub open spec fn subject_flag() -> Seq<char> {
    " --subject "@
}

/// The flag that introduces the session of a work item.
pub open spec fn session_flag() -> Seq<char> {
    " --session "@
}

/// The argument string for one work item: the template, the subject flag
/// with the primary key and, unless the secondary key is empty, the session
/// flag with the secondary key.
pub open spec fn built_arguments(
    template: Seq<char>,
    primary_key: Seq<char>,
    secondary_key: Seq<char>,
) -> Seq<char> {
    if secondary_key.len() == 0 {
        template + subject_flag() + primary_key
    } else {
        template + subject_flag() + primary_key + session_flag() + secondary_key
    }
}

/// Appends the item-specific flags to the shared template.
pub fn build(template: &str, primary_key: &str, secondary_key: &str) -> (arguments: String)
    ensures
        arguments@ == built_arguments(template@, primary_key@, secondary_key@),
{
    let mut arguments = String::from_str(template);
    arguments.append(" --subject ");
    arguments.append(primary_key);
    if !secondary_key.is_empty() {
        arguments.append(" --session ");
        arguments.append(secondary_key);
    }
    arguments
}

/// One entry of a batch: a primary key with its secondary keys, in order.
/// An entry without secondary keys stands for the primary key alone.
#[derive(Clone, Debug)]
pub struct BatchEntry {
    pub primary_key: String,
    pub secondary_keys: Vec<String>,
}

/// What a batch entry holds.
pub struct BatchEntryView {
    pub primary_key: Seq<char>,
    pub secondary_keys: Seq<Seq<char>>,
}

impl View for BatchEntry {
    type V = BatchEntryView;

    open spec fn view(&self) -> BatchEntryView {
        BatchEntryView {
            primary_key: self.primary_key@,
            secondary_keys: self.secondary_keys@.map_values(|key: String| key@),
        }
    }
}

/// A request to run the tool once for every item of a batch.
#[derive(Clone, Debug)]
pub struct RunRequest {
    pub interpreter_path: String,
    pub environment_root: Option<String>,
    pub template: String,
    pub batch: Vec<BatchEntry>,
}

/// One unit of work: its keys and the argument string built for it.
#[derive(Clone, Debug)]
pub struct WorkItem {
    pub primary_key: String,
    pub secondary_key: String,
    pub arguments: String,
}

/// What a work item holds.
pub struct WorkItemView {
    pub primary_key: Seq<char>,
    pub secondary_key: Seq<char>,
    pub arguments: Seq<char>,
}

impl View for WorkItem {
    type V = WorkItemView;

    open spec fn view(&self) -> WorkItemView {
        WorkItemView {
            primary_key: self.primary_key@,
            secondary_key: self.secondary_key@,
            arguments: self.arguments@,
        }
    }
}

impl WorkItem {
    /// A copy of this item.
    pub fn duplicate(&self) -> (copy: WorkItem)
        ensures
            copy@ == self@,
    {
        WorkItem {
            primary_key: self.primary_key.clone(),
            secondary_key: self.secondary_key.clone(),
            arguments: self.arguments.clone(),
        }
    }
}

/// The views of a sequence of batch entries.
pub open spec fn entry_views(batch: Seq<BatchEntry>) -> Seq<BatchEntryView> {
    batch.map_values(|entry: BatchEntry| entry@)
}

/// The views of a sequence of work items.
pub open spec fn item_views(items: Seq<WorkItem>) -> Seq<WorkItemView> {
    items.map_values(|item: WorkItem| item@)
}

/// The work item for one pair of keys.
pub open spec fn built_item(
    template: Seq<char>,
    primary_key: Seq<char>,
    secondary_key: Seq<char>,
) -> WorkItemView {
    WorkItemView {
        primary_key,
        secondary_key,
        arguments: built_arguments(template, primary_key, secondary_key),
    }
}

/// One work item per secondary key, in the order of the keys.
pub open spec fn keyed_items(
    template: Seq<char>,
    primary_key: Seq<char>,
    secondary_keys: Seq<Seq<char>>,
) -> Seq<WorkItemView> {
    Seq::new(
        secondary_keys.len(),
        |i: int| built_item(template, primary_key, secondary_keys[i]),
    )
}

/// The work items of one batch entry: one per secondary key, or a single item
/// with the empty secondary key where the entry has none.
pub open spec fn entry_items(template: Seq<char>, entry: BatchEntryView) -> Seq<WorkItemView> {
    if entry.secondary_keys.len() == 0 {
        seq![built_item(template, entry.primary_key, Seq::<char>::empty())]
    } else {
        keyed_items(template, entry.primary_key, entry.secondary_keys)
    }
}

/// The work items of a batch: those of its entries, in the order of the batch.
pub open spec fn batch_items(template: Seq<char>, batch: Seq<BatchEntryView>) -> Seq<WorkItemView>
    decreases batch.len(),
{
    if batch.len() == 0 {
        Seq::empty()
    } else {
        batch_items(template, batch.drop_last()) + entry_items(template, batch.last())
    }
}

/// Builds the work item for one pair of keys.
pub fn build_item(template: &str, primary_key: &str, secondary_key: &str) -> (item: WorkItem)
    ensures
        item@ == built_item(template@, primary_key@, secondary_key@),
{
    WorkItem {
        primary_key: String::from_str(primary_key),
        secondary_key: String::from_str(secondary_key),
        arguments: build(template, primary_key, secondary_key),
    }
}

/// Builds the ordered list of work items of a batch.
pub fn build_items(template: &str, batch: &Vec<BatchEntry>) -> (items: Vec<WorkItem>)
    ensures
        item_views(items@) == batch_items(template@, entry_views(batch@)),
{
    let mut items: Vec<WorkItem> = Vec::new();
    let mut i: usize = 0;
    while i < batch.len()
        invariant
            i <= batch.len(),
            item_views(items@) == batch_items(template@, entry_views(batch@).take(i as int)),
        decreases batch.len() - i,
    {
        let entry = &batch[i];
        let ghost before = item_views(items@);
        let ghost keys = entry@.secondary_keys;
        if entry.secondary_keys.len() == 0 {
            items.push(build_item(template, entry.primary_key.as_str(), ""));
            proof {
                reveal_strlit("");
                assert(""@ =~= Seq::<char>::empty());
            }
        } else {
            let mut j: usize = 0;
            while j < entry.secondary_keys.len()
                invariant
                    j <= entry.secondary_keys.len(),
                    keys == entry@.secondary_keys,
                    keys.len() == entry.secondary_keys.len(),
                    item_views(items@) == before + keyed_items(
                        template@,
                        entry@.primary_key,
                        keys.take(j as int),
                    ),
                decreases entry.secondary_keys.len() - j,
            {
                let ghost earlier = item_views(items@);
                let item = build_item(
                    template,
                    entry.primary_key.as_str(),
                    entry.secondary_keys[j].as_str(),
                );
                let ghost added = item@;
                items.push(item);
                proof {
                    assert(item_views(items@) =~= earlier.push(added));
                }
                j += 1;
            }
        }
        proof {
            let views = entry_views(batch@);
            assert(views.take(i + 1).drop_last() =~= views.take(i as int));
        }
        i += 1;
    }
    proof {
        assert(entry_views(batch@).take(i as int) =~= entry_views(batch@));
    }
    items
}

/// How the characters of an argument string are being read.
#[derive(Clone, Copy, Debug, PartialEq, Eq, Structural)]
pub enum Quoting {
    /// Outside quotation marks.
    Bare,
    /// Between single quotation marks: every character stands for itself.
    Single,
    /// Between double quotation marks: every character stands for itself,
    /// but a backslash before a double quotation mark or a backslash.
    Double,
}

/// How far an argument string has been split.
pub struct Splitting {
    /// The words that are complete.
    pub words: Seq<Seq<char>>,
    /// The word that is being read, if one is.
    pub word: Option<Seq<char>>,
    pub quoting: Quoting,
    /// The character before was a backslash that is yet to take effect.
    pub escaped: bool,
}

/// The word that is being read, with `c` at its end.
pub open spec fn with_character(word: Option<Seq<char>>, c: char) -> Seq<char> {
    match word {
        Some(word) => word.push(c),
        None => seq![c],
    }
}

/// The word that is being read; the empty word where none was.
pub open spec fn begun(word: Option<Seq<char>>) -> Seq<char> {
    match word {
        Some(word) => word,
        None => Seq::empty(),
    }
}

/// Nothing has been read.
pub open spec fn splitting_start() -> Splitting {
    Splitting { words: Seq::empty(), word: None, quoting: Quoting::Bare, escaped: false }
}

/// Reading one more character.
///
/// Outside quotation marks, white space ends a word, a quotation mark begins
/// a quoted part of a word, and a backslash makes the next character stand
/// for itself. Between single quotation marks every character stands for
/// itself up to the next single quotation mark. Between double quotation
/// marks every character stands for itself up to the next double quotation
/// mark, but a backslash before a double quotation mark or a backslash
/// gives that character alone.
pub open spec fn splitting_step(s: Splitting, c: char) -> Splitting {
    if s.escaped {
        let word = if s.quoting == Quoting::Double && c != '"' && c != '\\' {
            with_character(s.word, '\\').push(c)
        } else {
            with_character(s.word, c)
        };
        Splitting { word: Some(word), escaped: false, ..s }
    } else {
        match s.quoting {
            Quoting::Bare => {
                if c == '\\' {
                    Splitting { word: Some(begun(s.word)), escaped: true, ..s }
                } else if c == '\'' {
                    Splitting { word: Some(begun(s.word)), quoting: Quoting::Single, ..s }
                } else if c == '"' {
                    Splitting { word: Some(begun(s.word)), quoting: Quoting::Double, ..s }
                } else if is_whitespace(c) {
                    match s.word {
                        Some(word) => Splitting { words: s.words.push(word), word: None, ..s },
                        None => s,
                    }
                } else {
                    Splitting { word: Some(with_character(s.word, c)), ..s }
                }
            },
            Quoting::Single => {
                if c == '\'' {
                    Splitting { quoting: Quoting::Bare, ..s }
                } else {
                    Splitting { word: Some(with_character(s.word, c)), ..s }
                }
            },
            Quoting::Double => {
                if c == '"' {
                    Splitting { quoting: Quoting::Bare, ..s }
                } else if c == '\\' {
                    Splitting { escaped: true, ..s }
                } else {
                    Splitting { word: Some(with_character(s.word, c)), ..s }
                }
            },
        }
    }
}

/// Reading a text from its first character to its last.
pub open spec fn splitting_of(text: Seq<char>) -> Splitting
    decreases text.len(),
{
    if text.len() == 0 {
        splitting_start()
    } else {
        splitting_step(splitting_of(text.drop_last()), text.last())
    }
}

/// The words once the text has ended: a backslash at the very end stands
/// for itself, and a quotation mark that was not closed ends with the text.
pub open spec fn splitting_end(s: Splitting) -> Seq<Seq<char>> {
    let word = if s.escaped {
        Some(with_character(s.word, '\\'))
    } else {
        s.word
    };
    match word {
        Some(word) => s.words.push(word),
        None => s.words,
    }
}

/// The words of an argument string, as a shell takes them apart: words are
/// set apart by white space, and quotation marks and backslashes keep white
/// space inside a word. Nothing is expanded: a dollar sign, an asterisk and
/// the like stand for themselves.
pub open spec fn words(text: Seq<char>) -> Seq<Seq<char>> {
    splitting_end(splitting_of(text))
}

/// Splits an argument string into the words a process is started with.
pub fn split_arguments(arguments: &str) -> (split: Vec<String>)
    ensures
        text_views(split@) == words(arguments@),
{
    let chars = chars_of(arguments);
    let mut split: Vec<String> = Vec::new();
    let mut word = String::new();
    let mut reading = false;
    let mut quoting = Quoting::Bare;
    let mut escaped = false;
    let mut i: usize = 0;
    proof {
        assert(text_views(split@) =~= Seq::<Seq<char>>::empty());
    }
    while i < chars.len()
        invariant
            i <= chars.len(),
            chars@ == arguments@,
            !reading ==> word@ == Seq::<char>::empty(),
            splitting_of(chars@.take(i as int)) == (Splitting {
                words: text_views(split@),
                word: if reading {
                    Some(word@)
                } else {
                    None
                },
                quoting,
                escaped,
            }),
        decreases chars.len() - i,
    {
        let c = chars[i];
        let ghost done = text_views(split@);
        let ghost before = word@;
        proof {
            assert(chars@.take(i + 1).drop_last() =~= chars@.take(i as int));
            assert(arguments@.subrange(i as int, i + 1) =~= seq![c]);
            assert(before + seq![c] =~= before.push(c));
        }
        if escaped {
            if quoting == Quoting::Double && c != '"' && c != '\\' {
                word.append("\\");
                proof {
                    reveal_strlit("\\");
                    assert("\\"@ =~= seq!['\\']);
                    assert(before + seq!['\\'] =~= before.push('\\'));
                    assert(word@ + seq![c] =~= word@.push(c));
                }
            }
            word.append(arguments.substring_char(i, i + 1));
            reading = true;
            escaped = false;
        } else if quoting == Quoting::Single {
            if c == '\'' {
                quoting = Quoting::Bare;
            } else {
                word.append(arguments.substring_char(i, i + 1));
                reading = true;
            }
        } else if quoting == Quoting::Double {
            if c == '"' {
                quoting = Quoting::Bare;
            } else if c == '\\' {
                escaped = true;
            } else {
                word.append(arguments.substring_char(i, i + 1));
                reading = true;
            }
        } else if c == '\\' {
            reading = true;
            escaped = true;
        } else if c == '\'' {
            reading = true;
            quoting = Quoting::Single;
        } else if c == '"' {
            reading = true;
            quoting = Quoting::Double;
        } else if char_is_whitespace(c) {
            if reading {
                split.push(word);
                word = String::new();
                reading = false;
                proof {
                    assert(text_views(split@) =~= done.push(before));
                }
            }
        } else {
            word.append(arguments.substring_char(i, i + 1));
            reading = true;
        }
        i += 1;
    }
    proof {
        assert(chars@.take(i as int) =~= chars@);
    }
    let ghost before = word@;
    if escaped {
        word.append("\\");
        reading = true;
        proof {
            reveal_strlit("\\");
            assert("\\"@ =~= seq!['\\']);
            assert(before + seq!['\\'] =~= before.push('\\'));
        }
    }
    if reading {
        split.push(word);
    }
    split
}

/// What a run request holds.
pub struct RunRequestView {
    pub interpreter_path: Seq<char>,
    pub environment_root: Option<Seq<char>>,
    pub template: Seq<char>,
    pub batch: Seq<BatchEntryView>,
}

impl View for RunRequest {
    type V = RunRequestView;

    open spec fn view(&self) -> RunRequestView {
        RunRequestView {
            interpreter_path: self.interpreter_path@,
            environment_root: match self.environment_root {
                Some(root) => Some(root@),
                None => None,
            },
            template: self.template@,
            batch: entry_views(self.batch@),
        }
    }
}

} // verus!
