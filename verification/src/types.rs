use vstd::prelude::*;

verus! {

/// Supported annotation tags.
#[derive(Debug, Clone, Copy, PartialEq, Eq, Hash, Structural)]
pub enum Tag {
    Todo,
    Fixme,
    Hack,
    Xxx,
    Note,
    Optimize,
    Bug,
    Warn,
}

/// The upper-case name under which a tag is written and shown.
pub open spec fn tag_name(t: Tag) -> Seq<char> {
    match t {
        Tag::Todo => seq!['T', 'O', 'D', 'O'],
        Tag::Fixme => seq!['F', 'I', 'X', 'M', 'E'],
        Tag::Hack => seq!['H', 'A', 'C', 'K'],
        Tag::Xxx => seq!['X', 'X', 'X'],
        Tag::Note => seq!['N', 'O', 'T', 'E'],
        Tag::Optimize => seq!['O', 'P', 'T', 'I', 'M', 'I', 'Z', 'E'],
        Tag::Bug => seq!['B', 'U', 'G'],
        Tag::Warn => seq!['W', 'A', 'R', 'N'],
    }
}

/// Every tag, in declaration order.
pub open spec fn all_tags() -> Seq<Tag> {
    seq![Tag::Todo, Tag::Fixme, Tag::Hack, Tag::Xxx, Tag::Note, Tag::Optimize, Tag::Bug, Tag::Warn]
}

impl Tag {
    /// Every tag, in declaration order.
    pub fn all() -> (r: Vec<Tag>)
        ensures
            r@ == all_tags(),
    {
        let r = vec![
            Tag::Todo,
            Tag::Fixme,
            Tag::Hack,
            Tag::Xxx,
            Tag::Note,
            Tag::Optimize,
            Tag::Bug,
            Tag::Warn,
        ];
        assert(r@ =~= all_tags());
        r
    }

    /// The tag's upper-case name, as it is displayed.
    pub fn name(&self) -> (r: &'static str)
        ensures
            r@ == tag_name(*self),
    {
        match self {
            Tag::Todo => {
                proof { reveal_strlit("TODO"); }
                "TODO"
            },
            Tag::Fixme => {
                proof { reveal_strlit("FIXME"); }
                "FIXME"
            },
            Tag::Hack => {
                proof { reveal_strlit("HACK"); }
                "HACK"
            },
            Tag::Xxx => {
                proof { reveal_strlit("XXX"); }
                "XXX"
            },
            Tag::Note => {
                proof { reveal_strlit("NOTE"); }
                "NOTE"
            },
            Tag::Optimize => {
                proof { reveal_strlit("OPTIMIZE"); }
                "OPTIMIZE"
            },
            Tag::Bug => {
                proof { reveal_strlit("BUG"); }
                "BUG"
            },
            Tag::Warn => {
                proof { reveal_strlit("WARN"); }
                "WARN"
            },
        }
    }
}

/// A single TODO-style comment found in the codebase.
#[derive(Debug, Clone)]
pub struct TodoItem {
    /// The annotation tag (TODO, FIXME, etc.)
    pub tag: Tag,
    /// The message content after the tag
    pub message: String,
    /// Optional author from TAG(author) syntax
    pub author: Option<String>,
    /// File path where the item was found, as it is displayed
    pub file: String,
    /// Line number (1-based)
    pub line: usize,
    /// The full raw line content
    pub raw_line: String,
}

/// The mathematical content of a `TodoItem`.
pub struct ItemView {
    pub tag: Tag,
    pub message: Seq<char>,
    pub author: Option<Seq<char>>,
    pub file: Seq<char>,
    pub line: nat,
    pub raw_line: Seq<char>,
}

/// The view of an optional string.
pub open spec fn opt_view(o: Option<String>) -> Option<Seq<char>> {
    match o {
        Some(s) => Some(s@),
        None => None,
    }
}

impl View for TodoItem {
    type V = ItemView;

    open spec fn view(&self) -> ItemView {
        ItemView {
            tag: self.tag,
            message: self.message@,
            author: opt_view(self.author),
            file: self.file@,
            line: self.line as nat,
            raw_line: self.raw_line@,
        }
    }
}

/// The views of a sequence of items.
pub open spec fn item_views(items: Seq<TodoItem>) -> Seq<ItemView> {
    items.map_values(|i: TodoItem| i@)
}

/// Output format for reporting.
#[derive(Debug, Clone, Copy, PartialEq, Eq, Structural)]
pub enum OutputFormat {
    Table,
    Json,
    Markdown,
    Summary,
}

} // verus!

verus! {

/// `Tag::all` lists every tag, each once.
pub proof fn lemma_all_tags_once(t: Tag)
    ensures
        all_tags().contains(t),
        forall|i: int, j: int| 0 <= i < j < all_tags().len() ==> all_tags()[i] != all_tags()[j],
{
    match t {
        Tag::Todo => assert(all_tags()[0] == t),
        Tag::Fixme => assert(all_tags()[1] == t),
        Tag::Hack => assert(all_tags()[2] == t),
        Tag::Xxx => assert(all_tags()[3] == t),
        Tag::Note => assert(all_tags()[4] == t),
        Tag::Optimize => assert(all_tags()[5] == t),
        Tag::Bug => assert(all_tags()[6] == t),
        Tag::Warn => assert(all_tags()[7] == t),
    }
}

} // verus!
