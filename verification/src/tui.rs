//! The state of the interactive browser of found items, and how keys change it.
use vstd::prelude::*;

use crate::text::{chars_of, contains_chars, contains_seq, lowercase_of, to_lowercase};
use crate::types::{item_views, ItemView, Tag, TodoItem, all_tags};

verus! {

/// A set of tags.
#[derive(Debug, Clone, Copy)]
pub struct TagSet {
    todo: bool,
    fixme: bool,
    hack: bool,
    xxx: bool,
    note: bool,
    optimize: bool,
    bug: bool,
    warn: bool,
}

impl TagSet {
    /// Whether tag `t` is in the set.
    pub closed spec fn has(&self, t: Tag) -> bool {
        match t {
            Tag::Todo => self.todo,
            Tag::Fixme => self.fixme,
            Tag::Hack => self.hack,
            Tag::Xxx => self.xxx,
            Tag::Note => self.note,
            Tag::Optimize => self.optimize,
            Tag::Bug => self.bug,
            Tag::Warn => self.warn,
        }
    }
}

impl View for TagSet {
    type V = Set<Tag>;

    closed spec fn view(&self) -> Set<Tag> {
        Set::new(|t: Tag| self.has(t))
    }
}

impl TagSet {
    /// The empty set.
    pub fn new() -> (r: TagSet)
        ensures
            r@ == Set::<Tag>::empty(),
    {
        let r = TagSet {
            todo: false,
            fixme: false,
            hack: false,
            xxx: false,
            note: false,
            optimize: false,
            bug: false,
            warn: false,
        };
        assert(r@ =~= Set::<Tag>::empty());
        r
    }

    /// Whether `t` is in the set.
    pub fn contains(&self, t: &Tag) -> (r: bool)
        ensures
            r == self@.contains(*t),
    {
        match t {
            Tag::Todo => self.todo,
            Tag::Fixme => self.fixme,
            Tag::Hack => self.hack,
            Tag::Xxx => self.xxx,
            Tag::Note => self.note,
            Tag::Optimize => self.optimize,
            Tag::Bug => self.bug,
            Tag::Warn => self.warn,
        }
    }

    fn set(&mut self, t: Tag, v: bool)
        ensures
            final(self)@ == (if v { old(self)@.insert(t) } else { old(self)@.remove(t) }),
    {
        match t {
            Tag::Todo => self.todo = v,
            Tag::Fixme => self.fixme = v,
            Tag::Hack => self.hack = v,
            Tag::Xxx => self.xxx = v,
            Tag::Note => self.note = v,
            Tag::Optimize => self.optimize = v,
            Tag::Bug => self.bug = v,
            Tag::Warn => self.warn = v,
        }
        if v {
            assert(self@ =~= old(self)@.insert(t));
        } else {
            assert(self@ =~= old(self)@.remove(t));
        }
    }

    /// Adds `t` to the set.
    pub fn insert(&mut self, t: Tag)
        ensures
            final(self)@ == old(self)@.insert(t),
    {
        self.set(t, true);
    }

    /// Removes `t` from the set.
    pub fn remove(&mut self, t: &Tag)
        ensures
            final(self)@ == old(self)@.remove(*t),
    {
        self.set(*t, false);
    }

    /// Whether the set is empty.
    pub fn is_empty(&self) -> (r: bool)
        ensures
            r == (self@ == Set::<Tag>::empty()),
    {
        let r = !(self.todo || self.fixme || self.hack || self.xxx || self.note || self.optimize
            || self.bug || self.warn);
        if !r {
            assert(!(self@ =~= Set::<Tag>::empty())) by {
                if self.todo {
                    assert(self@.contains(Tag::Todo));
                } else if self.fixme {
                    assert(self@.contains(Tag::Fixme));
                } else if self.hack {
                    assert(self@.contains(Tag::Hack));
                } else if self.xxx {
                    assert(self@.contains(Tag::Xxx));
                } else if self.note {
                    assert(self@.contains(Tag::Note));
                } else if self.optimize {
                    assert(self@.contains(Tag::Optimize));
                } else if self.bug {
                    assert(self@.contains(Tag::Bug));
                } else {
                    assert(self@.contains(Tag::Warn));
                }
            }
        } else {
            assert(self@ =~= Set::<Tag>::empty());
        }
        r
    }

    /// Empties the set.
    pub fn clear(&mut self)
        ensures
            final(self)@ == Set::<Tag>::empty(),
    {
        *self = TagSet::new();
    }
}

/// The mode of the browser.
#[derive(Debug, Clone, Copy, PartialEq, Eq, Structural)]
pub enum AppMode {
    Normal,
    Search,
    Detail,
}

/// What the browser does after a key.
#[derive(Debug, Clone, Copy, PartialEq, Eq, Structural)]
pub enum Action {
    Quit,
    Continue,
}

/// The browser's state: the items, the indices of those shown, the selected
/// row among them, the tag filter, the search query and the mode.
pub struct App {
    pub items: Vec<TodoItem>,
    pub filtered_items: Vec<usize>,
    pub selected: usize,
    pub active_tag_filters: TagSet,
    pub search_query: String,
    pub mode: AppMode,
}

/// Whether an item is shown under the tag filter `tags` and the query `q`:
/// its tag is in `tags` (or `tags` is empty), and, for a non-empty query,
/// the lower-cased query occurs in its lower-cased message, file or author.
pub open spec fn visible(it: ItemView, tags: Set<Tag>, q: Seq<char>) -> bool {
    &&& (tags == Set::<Tag>::empty() || tags.contains(it.tag))
    &&& (q.len() == 0 || {
        let lq = lowercase_of(q);
        ||| contains_seq(lowercase_of(it.message), lq)
        ||| contains_seq(lowercase_of(it.file), lq)
        ||| (it.author matches Some(a) && contains_seq(lowercase_of(a), lq))
    })
}

/// The indices, in order, of those of the first `k` items that are shown.
pub open spec fn visible_indices(items: Seq<ItemView>, tags: Set<Tag>, q: Seq<char>, k: nat) -> Seq<usize>
    decreases k,
{
    if k == 0 || k > items.len() {
        Seq::empty()
    } else {
        let prev = visible_indices(items, tags, q, (k - 1) as nat);
        if visible(items[k - 1], tags, q) {
            prev.push((k - 1) as usize)
        } else {
            prev
        }
    }
}

/// The indices of the items that `app`'s filter and query show.
pub open spec fn shown_indices(app: App) -> Seq<usize> {
    visible_indices(item_views(app.items@), app.active_tag_filters@, app.search_query@, app.items@.len())
}

/// A selection kept within `n` rows: 0 when there are none, else at most the last row.
pub open spec fn clamp(sel: usize, n: nat) -> usize {
    if n == 0 {
        0
    } else if sel >= n {
        (n - 1) as usize
    } else {
        sel
    }
}

/// The row after `sel` among `n`, wrapping around to the first.
pub open spec fn next_row(sel: usize, n: nat) -> usize {
    if n == 0 {
        sel
    } else {
        ((sel + 1) % (n as int)) as usize
    }
}

/// The row before `sel` among `n`, wrapping around to the last.
pub open spec fn previous_row(sel: usize, n: nat) -> usize {
    if n == 0 {
        sel
    } else if sel == 0 {
        (n - 1) as usize
    } else {
        (sel - 1) as usize
    }
}

/// Whether `new` shows what its filter and query select, with the selection
/// `old_selected` kept within the rows shown.
pub open spec fn refiltered(new: App, old_selected: usize) -> bool {
    &&& new.filtered_items@ == shown_indices(new)
    &&& new.selected == clamp(old_selected, shown_indices(new).len())
}

/// Whether `app` is consistent: it shows what its filter and query select,
/// and its selection is a row shown (or 0 when none is).
pub open spec fn app_wf(app: App) -> bool {
    &&& app.filtered_items@ == shown_indices(app)
    &&& app.selected == clamp(app.selected, app.filtered_items@.len())
}

fn item_visible(item: &TodoItem, tags: &TagSet, lq: &Vec<char>, query_empty: bool, ghost_q: Ghost<Seq<char>>) -> (r: bool)
    requires
        query_empty == (ghost_q@.len() == 0),
        !query_empty ==> lq@ == lowercase_of(ghost_q@),
    ensures
        r == visible(item@, tags@, ghost_q@),
{
    if !tags.is_empty() && !tags.contains(&item.tag) {
        return false;
    }
    if !query_empty {
        let m = to_lowercase(item.message.as_str());
        if contains_chars(chars_of(m.as_str()).as_slice(), lq.as_slice()) {
            return true;
        }
        let f = to_lowercase(item.file.as_str());
        if contains_chars(chars_of(f.as_str()).as_slice(), lq.as_slice()) {
            return true;
        }
        match &item.author {
            Some(a) => {
                let al = to_lowercase(a.as_str());
                return contains_chars(chars_of(al.as_str()).as_slice(), lq.as_slice());
            },
            None => return false,
        }
    }
    true
}

impl App {
    /// A browser over `items`, all shown, the first selected, in normal mode.
    pub fn new(items: Vec<TodoItem>) -> (r: App)
        ensures
            r.items@ == items@,
            r.filtered_items@ == Seq::new(items@.len(), |i: int| i as usize),
            r.selected == 0,
            r.active_tag_filters@ == Set::<Tag>::empty(),
            r.search_query@ == Seq::<char>::empty(),
            r.mode == AppMode::Normal,
            app_wf(r),
    {
        let mut filtered_items: Vec<usize> = Vec::new();
        let mut i: usize = 0;
        while i < items.len()
            invariant
                i <= items.len(),
                filtered_items@ == Seq::new(i as nat, |j: int| j as usize),
            decreases items.len() - i,
        {
            filtered_items.push(i);
            assert(filtered_items@ =~= Seq::new((i + 1) as nat, |j: int| j as usize));
            i = i + 1;
        }
        let r = App {
            items,
            filtered_items,
            selected: 0,
            active_tag_filters: TagSet::new(),
            search_query: String::new(),
            mode: AppMode::Normal,
        };
        proof {
            lemma_all_shown(item_views(r.items@), r.items@.len());
        }
        r
    }

    /// Recomputes the rows shown from the filter and the query, and keeps the
    /// selection within them.
    pub fn apply_filters(&mut self)
        ensures
            final(self).items@ == old(self).items@,
            final(self).active_tag_filters@ == old(self).active_tag_filters@,
            final(self).search_query@ == old(self).search_query@,
            final(self).mode == old(self).mode,
            refiltered(*final(self), old(self).selected),
    {
        let ghost q = self.search_query@;
        let ghost v = item_views(self.items@);
        let query_empty = self.search_query.as_str().is_empty();
        let lower = to_lowercase(self.search_query.as_str());
        let lq = chars_of(lower.as_str());
        let mut out: Vec<usize> = Vec::new();
        let mut k: usize = 0;
        while k < self.items.len()
            invariant
                k <= self.items.len(),
                q == self.search_query@,
                v == item_views(self.items@),
                query_empty == (q.len() == 0),
                lq@ == lowercase_of(q),
                out@ == visible_indices(v, self.active_tag_filters@, q, k as nat),
            decreases self.items.len() - k,
        {
            if item_visible(&self.items[k], &self.active_tag_filters, &lq, query_empty, Ghost(q)) {
                out.push(k);
            }
            k = k + 1;
        }
        self.filtered_items = out;
        if self.filtered_items.len() == 0 {
            self.selected = 0;
        } else if self.selected >= self.filtered_items.len() {
            self.selected = self.filtered_items.len() - 1;
        }
    }

    /// Adds `tag` to the filter, or removes it if it is there, and recomputes the rows shown.
    pub fn toggle_tag_filter(&mut self, tag: Tag)
        ensures
            final(self).items@ == old(self).items@,
            final(self).active_tag_filters@ == toggled(old(self).active_tag_filters@, tag),
            final(self).search_query@ == old(self).search_query@,
            final(self).mode == old(self).mode,
            refiltered(*final(self), old(self).selected),
    {
        if self.active_tag_filters.contains(&tag) {
            self.active_tag_filters.remove(&tag);
        } else {
            self.active_tag_filters.insert(tag);
        }
        self.apply_filters();
    }

    /// Selects the next row shown, wrapping around to the first.
    pub fn next(&mut self)
        requires
            old(self).filtered_items.len() > 0 ==> old(self).selected < usize::MAX,
        ensures
            final(self).selected == next_row(old(self).selected, old(self).filtered_items@.len()),
            final(self).items@ == old(self).items@,
            final(self).filtered_items@ == old(self).filtered_items@,
            final(self).active_tag_filters@ == old(self).active_tag_filters@,
            final(self).search_query@ == old(self).search_query@,
            final(self).mode == old(self).mode,
    {
        if self.filtered_items.len() > 0 {
            self.selected = (self.selected + 1) % self.filtered_items.len();
        }
    }

    /// Selects the previous row shown, wrapping around to the last.
    pub fn previous(&mut self)
        ensures
            final(self).selected == previous_row(old(self).selected, old(self).filtered_items@.len()),
            final(self).items@ == old(self).items@,
            final(self).filtered_items@ == old(self).filtered_items@,
            final(self).active_tag_filters@ == old(self).active_tag_filters@,
            final(self).search_query@ == old(self).search_query@,
            final(self).mode == old(self).mode,
    {
        if self.filtered_items.len() > 0 {
            self.selected = if self.selected == 0 {
                self.filtered_items.len() - 1
            } else {
                self.selected - 1
            };
        }
    }

    /// The item in the selected row, if there is one.
    pub open spec fn selected_item_spec(&self) -> Option<TodoItem> {
        if self.selected < self.filtered_items@.len() && self.filtered_items@[self.selected as int]
            < self.items@.len() {
            Some(self.items@[self.filtered_items@[self.selected as int] as int])
        } else {
            None
        }
    }

    /// The item in the selected row, if there is one.
    pub fn selected_item(&self) -> (r: Option<&TodoItem>)
        ensures
            (self.selected < self.filtered_items@.len() && self.filtered_items@[self.selected as int]
                < self.items@.len()) ==> r == Some(&self.items@[self.filtered_items@[self.selected as int] as int]),
            !(self.selected < self.filtered_items@.len() && self.filtered_items@[self.selected as int]
                < self.items@.len()) ==> r is None,
    {
        if self.selected < self.filtered_items.len() {
            let idx = self.filtered_items[self.selected];
            if idx < self.items.len() {
                return Some(&self.items[idx]);
            }
        }
        None
    }
}

/// `tags` with `t` added, or removed if it was there.
pub open spec fn toggled(tags: Set<Tag>, t: Tag) -> Set<Tag> {
    if tags.contains(t) {
        tags.remove(t)
    } else {
        tags.insert(t)
    }
}

/// With no tag filter and no query, every item is shown.
pub proof fn lemma_all_shown(items: Seq<ItemView>, k: nat)
    requires
        k <= items.len(),
    ensures
        visible_indices(items, Set::<Tag>::empty(), Seq::empty(), k) == Seq::new(k, |i: int| i as usize),
    decreases k,
{
    if k > 0 {
        lemma_all_shown(items, (k - 1) as nat);
        assert(visible(items[k - 1], Set::<Tag>::empty(), Seq::empty()));
        assert(visible_indices(items, Set::<Tag>::empty(), Seq::empty(), k) =~= Seq::new(k, |i: int| i as usize));
    } else {
        assert(visible_indices(items, Set::<Tag>::empty(), Seq::empty(), k) =~= Seq::new(k, |i: int| i as usize));
    }
}

} // verus!

verus! {

/// A key, as the browser reads it.
#[derive(Debug, Clone, Copy, PartialEq, Eq, Structural)]
pub enum KeyCode {
    Char(char),
    Esc,
    Enter,
    Up,
    Down,
    Backspace,
    Other,
}

/// An input event: a key (pressed, or released / repeated), or anything else.
#[derive(Debug, Clone, Copy, PartialEq, Eq, Structural)]
pub enum Event {
    Key { code: KeyCode, press: bool },
    Other,
}

/// The tag whose filter the digit key `c` toggles: `1` to `8` in the order of `Tag::all`.
pub open spec fn key_tag(c: char) -> Option<Tag> {
    if c == '1' {
        Some(Tag::Todo)
    } else if c == '2' {
        Some(Tag::Fixme)
    } else if c == '3' {
        Some(Tag::Hack)
    } else if c == '4' {
        Some(Tag::Xxx)
    } else if c == '5' {
        Some(Tag::Note)
    } else if c == '6' {
        Some(Tag::Optimize)
    } else if c == '7' {
        Some(Tag::Bug)
    } else if c == '8' {
        Some(Tag::Warn)
    } else {
        None
    }
}

/// The tag whose filter the digit key `c` toggles.
pub fn tag_from_key(c: char) -> (r: Option<Tag>)
    ensures
        r == key_tag(c),
{
    match c {
        '1' => Some(Tag::Todo),
        '2' => Some(Tag::Fixme),
        '3' => Some(Tag::Hack),
        '4' => Some(Tag::Xxx),
        '5' => Some(Tag::Note),
        '6' => Some(Tag::Optimize),
        '7' => Some(Tag::Bug),
        '8' => Some(Tag::Warn),
        _ => None,
    }
}

/// Trusted: `String::push`. Its documentation says that it appends `c` to the end.
#[verifier::external_body]
fn string_push(s: &mut String, c: char)
    ensures
        final(s)@ == old(s)@.push(c),
{
    s.push(c)
}

/// Trusted: `String::pop`. Its documentation says that it removes and returns
/// the last character, or returns `None` and leaves the string as it is when
/// the string is empty.
#[verifier::external_body]
fn string_pop(s: &mut String) -> (r: Option<char>)
    ensures
        old(s)@.len() == 0 ==> r is None && final(s)@ == old(s)@,
        old(s)@.len() > 0 ==> r == Some(old(s)@.last()) && final(s)@ == old(s)@.drop_last(),
{
    s.pop()
}

/// Whether `new` equals `old` in everything but its selection.
pub open spec fn same_but_selection(new: App, old: App) -> bool {
    &&& new.items@ == old.items@
    &&& new.filtered_items@ == old.filtered_items@
    &&& new.active_tag_filters@ == old.active_tag_filters@
    &&& new.search_query@ == old.search_query@
    &&& new.mode == old.mode
}

/// Whether `new` is `old` in mode `mode`.
pub open spec fn moved_to(new: App, old: App, mode: AppMode) -> bool {
    &&& new.items@ == old.items@
    &&& new.filtered_items@ == old.filtered_items@
    &&& new.selected == old.selected
    &&& new.active_tag_filters@ == old.active_tag_filters@
    &&& new.search_query@ == old.search_query@
    &&& new.mode == mode
}

/// Whether `new` is `old` with the tag filter `tags`, the query `q`, and the
/// rows shown recomputed.
pub open spec fn filtered_to(new: App, old: App, tags: Set<Tag>, q: Seq<char>) -> bool {
    &&& new.items@ == old.items@
    &&& new.active_tag_filters@ == tags
    &&& new.search_query@ == q
    &&& new.mode == old.mode
    &&& refiltered(new, old.selected)
}

/// What a key does in normal mode: `q`/Esc quit, `j`/Down and `k`/Up move
/// the selection, Enter opens the detail view, `/` starts a search, `c`
/// clears the filter and the query, `1`..`8` toggle a tag's filter.
pub open spec fn normal_step(old: App, code: KeyCode, new: App, action: Action) -> bool {
    match code {
        KeyCode::Char('q') | KeyCode::Esc => action == Action::Quit && moved_to(new, old, old.mode),
        KeyCode::Char('j') | KeyCode::Down => action == Action::Continue && same_but_selection(new, old)
            && new.selected == next_row(old.selected, old.filtered_items@.len()),
        KeyCode::Char('k') | KeyCode::Up => action == Action::Continue && same_but_selection(new, old)
            && new.selected == previous_row(old.selected, old.filtered_items@.len()),
        KeyCode::Enter => action == Action::Continue && moved_to(new, old, AppMode::Detail),
        KeyCode::Char('/') => action == Action::Continue && moved_to(new, old, AppMode::Search),
        KeyCode::Char('c') => action == Action::Continue && filtered_to(new, old, Set::empty(), Seq::empty()),
        KeyCode::Char(c) => action == Action::Continue && match key_tag(c) {
            Some(t) => filtered_to(new, old, toggled(old.active_tag_filters@, t), old.search_query@),
            None => moved_to(new, old, old.mode),
        },
        _ => action == Action::Continue && moved_to(new, old, old.mode),
    }
}

/// What a key does while searching: Enter/Esc end the search, Backspace
/// deletes the query's last character, other characters are appended to it;
/// the rows shown follow the query.
pub open spec fn search_step(old: App, code: KeyCode, new: App, action: Action) -> bool {
    action == Action::Continue && match code {
        KeyCode::Enter | KeyCode::Esc => moved_to(new, old, AppMode::Normal),
        KeyCode::Backspace => filtered_to(
            new,
            old,
            old.active_tag_filters@,
            if old.search_query@.len() == 0 { old.search_query@ } else { old.search_query@.drop_last() },
        ),
        KeyCode::Char(c) => filtered_to(new, old, old.active_tag_filters@, old.search_query@.push(c)),
        _ => moved_to(new, old, old.mode),
    }
}

/// What a key does in the detail view: Esc/Enter go back, `q` quits,
/// `j`/Down and `k`/Up move the selection.
pub open spec fn detail_step(old: App, code: KeyCode, new: App, action: Action) -> bool {
    match code {
        KeyCode::Esc | KeyCode::Enter => action == Action::Continue && moved_to(new, old, AppMode::Normal),
        KeyCode::Char('q') => action == Action::Quit && moved_to(new, old, old.mode),
        KeyCode::Char('j') | KeyCode::Down => action == Action::Continue && same_but_selection(new, old)
            && new.selected == next_row(old.selected, old.filtered_items@.len()),
        KeyCode::Char('k') | KeyCode::Up => action == Action::Continue && same_but_selection(new, old)
            && new.selected == previous_row(old.selected, old.filtered_items@.len()),
        _ => action == Action::Continue && moved_to(new, old, old.mode),
    }
}

/// What an event does to the browser: a pressed key acts by the mode;
/// anything else changes nothing.
pub open spec fn step(old: App, event: Event, new: App, action: Action) -> bool {
    match event {
        Event::Key { code, press: true } => match old.mode {
            AppMode::Normal => normal_step(old, code, new, action),
            AppMode::Search => search_step(old, code, new, action),
            AppMode::Detail => detail_step(old, code, new, action),
        },
        _ => action == Action::Continue && moved_to(new, old, old.mode),
    }
}

fn handle_normal(app: &mut App, code: KeyCode) -> (r: Action)
    requires
        old(app).filtered_items.len() > 0 ==> old(app).selected < usize::MAX,
    ensures
        normal_step(*old(app), code, *final(app), r),
{
    match code {
        KeyCode::Char('q') | KeyCode::Esc => return Action::Quit,
        KeyCode::Char('j') | KeyCode::Down => app.next(),
        KeyCode::Char('k') | KeyCode::Up => app.previous(),
        KeyCode::Enter => app.mode = AppMode::Detail,
        KeyCode::Char('/') => {
            app.mode = AppMode::Search;
        },
        KeyCode::Char('c') => {
            app.active_tag_filters.clear();
            app.search_query = String::new();
            app.apply_filters();
        },
        KeyCode::Char(c) => {
            if '1' <= c && c <= '8' {
                if let Some(tag) = tag_from_key(c) {
                    app.toggle_tag_filter(tag);
                }
            }
        },
        _ => {},
    }
    Action::Continue
}

fn handle_search(app: &mut App, code: KeyCode)
    ensures
        search_step(*old(app), code, *final(app), Action::Continue),
{
    match code {
        KeyCode::Enter | KeyCode::Esc => {
            app.mode = AppMode::Normal;
        },
        KeyCode::Backspace => {
            string_pop(&mut app.search_query);
            app.apply_filters();
        },
        KeyCode::Char(c) => {
            string_push(&mut app.search_query, c);
            app.apply_filters();
        },
        _ => {},
    }
}

fn handle_detail(app: &mut App, code: KeyCode) -> (r: Action)
    requires
        old(app).filtered_items.len() > 0 ==> old(app).selected < usize::MAX,
    ensures
        detail_step(*old(app), code, *final(app), r),
{
    match code {
        KeyCode::Esc | KeyCode::Enter => {
            app.mode = AppMode::Normal;
        },
        KeyCode::Char('q') => return Action::Quit,
        KeyCode::Char('j') | KeyCode::Down => app.next(),
        KeyCode::Char('k') | KeyCode::Up => app.previous(),
        _ => {},
    }
    Action::Continue
}

/// Applies one input event to the browser and says whether to go on.
pub fn handle_event(app: &mut App, event: Event) -> (r: Action)
    requires
        old(app).filtered_items.len() > 0 ==> old(app).selected < usize::MAX,
    ensures
        step(*old(app), event, *final(app), r),
{
    if let Event::Key { code, press } = event {
        if !press {
            return Action::Continue;
        }
        match app.mode {
            AppMode::Normal => return handle_normal(app, code),
            AppMode::Search => handle_search(app, code),
            AppMode::Detail => return handle_detail(app, code),
        }
    }
    Action::Continue
}

} // verus!

verus! {

/// Stepping forward from a row and then back returns to it, and so does
/// stepping back and then forward.
pub proof fn lemma_previous_undoes_next(sel: usize, n: nat)
    requires
        sel < n,
        n <= usize::MAX,
    ensures
        previous_row(next_row(sel, n), n) == sel,
        next_row(previous_row(sel, n), n) == sel,
        next_row(sel, n) < n,
        previous_row(sel, n) < n,
{
    if sel + 1 < n {
        assert((sel + 1) % (n as int) == sel + 1) by (nonlinear_arith)
            requires
                0 <= sel + 1 < n,
        ;
    } else {
        assert((sel + 1) % (n as int) == 0) by (nonlinear_arith)
            requires
                sel + 1 == n,
                n > 0,
        ;
    }
    if sel == 0 {
        assert(((n - 1) + 1) % (n as int) == 0) by (nonlinear_arith)
            requires
                n > 0,
        ;
    } else {
        assert(((sel - 1) + 1) % (n as int) == sel) by (nonlinear_arith)
            requires
                0 < sel < n,
        ;
    }
}

/// Toggling a tag's filter twice gives the filter back.
pub proof fn lemma_toggle_twice(tags: Set<Tag>, t: Tag)
    ensures
        toggled(toggled(tags, t), t) == tags,
{
    if tags.contains(t) {
        assert(tags.remove(t).insert(t) =~= tags);
    } else {
        assert(tags.insert(t).remove(t) =~= tags);
    }
}

/// The rows shown are indices of items, in increasing order, each item at most once.
pub proof fn lemma_shown_rows_valid(items: Seq<ItemView>, tags: Set<Tag>, q: Seq<char>, k: nat)
    requires
        k <= items.len(),
        items.len() <= usize::MAX,
    ensures
        forall|i: int| 0 <= i < visible_indices(items, tags, q, k).len() ==> #[trigger] visible_indices(items, tags, q, k)[i] < k,
        forall|i: int, j: int| 0 <= i < j < visible_indices(items, tags, q, k).len() ==>
            #[trigger] visible_indices(items, tags, q, k)[i] < #[trigger] visible_indices(items, tags, q, k)[j],
        forall|i: int| 0 <= i < visible_indices(items, tags, q, k).len() ==>
            visible(items[#[trigger] visible_indices(items, tags, q, k)[i] as int], tags, q),
    decreases k,
{
    if k > 0 {
        lemma_shown_rows_valid(items, tags, q, (k - 1) as nat);
        let prev = visible_indices(items, tags, q, (k - 1) as nat);
        let cur = visible_indices(items, tags, q, k);
        if visible(items[k - 1], tags, q) {
            assert(cur == prev.push((k - 1) as usize));
            assert(((k - 1) as usize) as int == k - 1);
            assert forall|i: int, j: int| 0 <= i < j < cur.len() implies #[trigger] cur[i] < #[trigger] cur[j] by {
                if j < prev.len() {
                    assert(cur[i] == prev[i] && cur[j] == prev[j]);
                } else {
                    assert(cur[i] == prev[i]);
                }
            }
            assert forall|i: int| 0 <= i < cur.len() implies #[trigger] cur[i] < k by {
                if i < prev.len() {
                    assert(cur[i] == prev[i]);
                }
            }
            assert forall|i: int| 0 <= i < cur.len() implies visible(items[#[trigger] cur[i] as int], tags, q) by {
                if i < prev.len() {
                    assert(cur[i] == prev[i]);
                }
            }
        }
    }
}

/// A browser that shows what its filter and query select, with its
/// selection among the rows shown, is consistent.
pub proof fn lemma_refiltered_wf(app: App, old_selected: usize)
    requires
        refiltered(app, old_selected),
    ensures
        app_wf(app),
{
}

/// Every event keeps a consistent browser consistent.
pub proof fn lemma_step_keeps_wf(old: App, event: Event, new: App, action: Action)
    requires
        app_wf(old),
        step(old, event, new, action),
    ensures
        app_wf(new),
{
    assert(shown_indices(old) == visible_indices(
        item_views(old.items@),
        old.active_tag_filters@,
        old.search_query@,
        old.items@.len(),
    ));
    let n = old.filtered_items@.len();
    assert(n == old.filtered_items.len());
    if n > 0 && old.selected < n {
        lemma_previous_undoes_next(old.selected, n);
    }
    if same_but_selection(new, old) {
        assert(shown_indices(new) == shown_indices(old));
    }
    if moved_to(new, old, new.mode) {
        assert(shown_indices(new) == shown_indices(old));
    }
}

/// Each of the keys `1` to `8` stands for the tag at that place in `Tag::all`,
/// and no other key stands for a tag.
pub proof fn lemma_digit_keys_follow_all(c: char)
    ensures
        key_tag(c) matches Some(t) ==> ('1' <= c && c <= '8' && all_tags()[c as int - '1' as int] == t),
        ('1' <= c && c <= '8') ==> key_tag(c) is Some,
{
}

} // verus!

verus! {

proof fn lemma_contains_transitive(a: Seq<char>, b: Seq<char>, c: Seq<char>)
    requires
        contains_seq(a, b),
        contains_seq(b, c),
    ensures
        contains_seq(a, c),
{
    let i = choose|i: int| 0 <= i && i + b.len() <= a.len() && #[trigger] a.subrange(i, i + b.len()) == b;
    let j = choose|j: int| 0 <= j && j + c.len() <= b.len() && #[trigger] b.subrange(j, j + c.len()) == c;
    assert(a.subrange(i + j, i + j + c.len()) =~= c) by {
        assert forall|k: int| 0 <= k < c.len() implies a.subrange(i + j, i + j + c.len())[k] == c[k] by {
            assert(a.subrange(i, i + b.len())[j + k] == b[j + k]);
            assert(b.subrange(j, j + c.len())[k] == c[k]);
        }
    }
}

/// Whether the filter `t2` and query `q2` are narrower than `t1` and `q1`:
/// `t1` is empty or holds the non-empty `t2`, and `q1` is empty or its
/// lower-cased form occurs in that of `q2`.
pub open spec fn narrower(t1: Set<Tag>, q1: Seq<char>, t2: Set<Tag>, q2: Seq<char>) -> bool {
    &&& (t1 == Set::<Tag>::empty() || (t2 != Set::<Tag>::empty() && t2.subset_of(t1)))
    &&& (q1.len() == 0 || contains_seq(lowercase_of(q2), lowercase_of(q1)))
}

proof fn lemma_narrower_visible(it: ItemView, t1: Set<Tag>, q1: Seq<char>, t2: Set<Tag>, q2: Seq<char>)
    requires
        narrower(t1, q1, t2, q2),
        lowercase_of(Seq::<char>::empty()) == Seq::<char>::empty(),
        visible(it, t2, q2),
    ensures
        visible(it, t1, q1),
{
    if q1.len() > 0 {
        let l1 = lowercase_of(q1);
        if q2.len() > 0 {
            let l2 = lowercase_of(q2);
            if contains_seq(lowercase_of(it.message), l2) {
                lemma_contains_transitive(lowercase_of(it.message), l2, l1);
            } else if contains_seq(lowercase_of(it.file), l2) {
                lemma_contains_transitive(lowercase_of(it.file), l2, l1);
            } else {
                let a = it.author->0;
                lemma_contains_transitive(lowercase_of(a), l2, l1);
            }
        } else {
            assert(q2 =~= Seq::<char>::empty());
            assert(l1.len() == 0);
            let m = lowercase_of(it.message);
            assert(m.subrange(0int, 0int + l1.len()) =~= l1);
        }
    }
}

/// A narrower tag filter or a longer query never shows more rows: every
/// row shown under `t2`, `q2` is also shown under `t1`, `q1`. (That the empty
/// query lower-cases to the empty text is what `to_lowercase("")` gives.)
pub proof fn lemma_narrower_shows_fewer(
    items: Seq<ItemView>,
    t1: Set<Tag>,
    q1: Seq<char>,
    t2: Set<Tag>,
    q2: Seq<char>,
    k: nat,
)
    requires
        k <= items.len(),
        narrower(t1, q1, t2, q2),
        lowercase_of(Seq::<char>::empty()) == Seq::<char>::empty(),
    ensures
        forall|i: int| 0 <= i < visible_indices(items, t2, q2, k).len() ==>
            visible_indices(items, t1, q1, k).contains(#[trigger] visible_indices(items, t2, q2, k)[i]),
    decreases k,
{
    if k > 0 {
        lemma_narrower_shows_fewer(items, t1, q1, t2, q2, (k - 1) as nat);
        let p1 = visible_indices(items, t1, q1, (k - 1) as nat);
        let p2 = visible_indices(items, t2, q2, (k - 1) as nat);
        let c1 = visible_indices(items, t1, q1, k);
        let c2 = visible_indices(items, t2, q2, k);
        if visible(items[k - 1], t2, q2) {
            lemma_narrower_visible(items[k - 1], t1, q1, t2, q2);
        }
        assert forall|i: int| 0 <= i < c2.len() implies c1.contains(#[trigger] c2[i]) by {
            if i < p2.len() {
                assert(c2[i] == p2[i]);
                assert(p1.contains(p2[i]));
                let j = choose|j: int| 0 <= j < p1.len() && p1[j] == p2[i];
                assert(c1[j] == p1[j]);
            } else {
                assert(c2[i] == (k - 1) as usize);
                assert(c1[c1.len() - 1] == (k - 1) as usize);
            }
        }
    }
}

/// In search mode every key goes on (`q` too); Enter and Esc leave search
/// mode keeping the query and the rows shown; a character is appended to the
/// query; and typing a character then deleting it gives back the query and
/// the rows shown, still in search mode.
pub proof fn lemma_type_then_delete(old: App, c: char, mid: App, a1: Action, new: App, a2: Action)
    requires
        app_wf(old),
        old.mode == AppMode::Search,
        step(old, Event::Key { code: KeyCode::Char(c), press: true }, mid, a1),
        step(mid, Event::Key { code: KeyCode::Backspace, press: true }, new, a2),
    ensures
        a1 == Action::Continue,
        a2 == Action::Continue,
        mid.search_query@ == old.search_query@.push(c),
        mid.mode == AppMode::Search,
        new.search_query@ == old.search_query@,
        new.filtered_items@ == old.filtered_items@,
        new.mode == AppMode::Search,
{
    assert(old.search_query@.push(c).drop_last() =~= old.search_query@);
    assert(shown_indices(new) == shown_indices(old));
}

/// In search mode, Enter and Esc go back to normal mode keeping the query
/// and the rows shown.
pub proof fn lemma_search_leaves(old: App, code: KeyCode, new: App, a: Action)
    requires
        old.mode == AppMode::Search,
        code == KeyCode::Enter || code == KeyCode::Esc,
        step(old, Event::Key { code, press: true }, new, a),
    ensures
        a == Action::Continue,
        new.mode == AppMode::Normal,
        new.search_query@ == old.search_query@,
        new.filtered_items@ == old.filtered_items@,
{
}

} // verus!

verus! {

/// The law of the search handler, over the steps it takes: in search mode,
/// typing a character and then deleting it gives back the query and the rows
/// shown, still in search mode; any character (`q` too) is appended to the
/// query; Enter and Esc go back to normal mode keeping the query and rows.
pub proof fn lemma_search_step_type_then_delete(old: App, c: char, mid: App, new: App)
    requires
        app_wf(old),
        old.mode == AppMode::Search,
        search_step(old, KeyCode::Char(c), mid, Action::Continue),
        search_step(mid, KeyCode::Backspace, new, Action::Continue),
    ensures
        mid.search_query@ == old.search_query@.push(c),
        mid.mode == AppMode::Search,
        new.search_query@ == old.search_query@,
        new.filtered_items@ == old.filtered_items@,
        new.mode == AppMode::Search,
{
    assert(old.search_query@.push(c).drop_last() =~= old.search_query@);
    assert(shown_indices(new) == shown_indices(old));
}

/// In the search handler, Enter and Esc go back to normal mode keeping the
/// query and the rows shown.
pub proof fn lemma_search_step_leaves(old: App, code: KeyCode, new: App)
    requires
        code == KeyCode::Enter || code == KeyCode::Esc,
        search_step(old, code, new, Action::Continue),
    ensures
        new.mode == AppMode::Normal,
        new.search_query@ == old.search_query@,
        new.filtered_items@ == old.filtered_items@,
{
}

} // verus!

verus! {

/// In normal mode the key `c` clears the tag filter and the query, so every
/// item is shown again.
pub proof fn lemma_clear_key_shows_all(old: App, new: App, a: Action)
    requires
        old.mode == AppMode::Normal,
        step(old, Event::Key { code: KeyCode::Char('c'), press: true }, new, a),
    ensures
        a == Action::Continue,
        new.search_query@.len() == 0,
        new.active_tag_filters@ == Set::<Tag>::empty(),
        new.items@ == old.items@,
        new.filtered_items@ == Seq::new(old.items@.len(), |i: int| i as usize),
{
    lemma_all_shown(item_views(new.items@), new.items@.len());
    assert(new.search_query@ =~= Seq::<char>::empty());
}

} // verus!
