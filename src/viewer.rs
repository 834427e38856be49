//! The viewer's state: an ordered collection of documents and a cursor into
//! it, with wraparound navigation.

use vstd::prelude::*;
use crate::text::{
    is_text_name, lemma_title_le_total, lemma_title_le_transitive, title_le, title_le_exec, title_of,
    title_spec,
};

verus! {

broadcast use vstd::seq_lib::group_to_multiset_ensures;

/// A document as the contracts see it: its title and its content.
pub type DocModel = (Seq<char>, Seq<char>);

/// The documents that a directory listing yields, in listing order: each
/// `(file name, content)` pair whose name is a text file's, titled by the
/// name without its extension.
pub open spec fn documents_of(files: Seq<DocModel>) -> Seq<DocModel>
    decreases files.len(),
{
    if files.len() == 0 {
        Seq::empty()
    } else {
        let last = files.last();
        let rest = documents_of(files.drop_last());
        if is_text_name(last.0) {
            rest.push((title_spec(last.0), last.1))
        } else {
            rest
        }
    }
}

/// Each document's title comes no later than any later document's.
pub open spec fn sorted_by_title(docs: Seq<DocModel>) -> bool {
    forall|i: int, j: int| 0 <= i < j < docs.len() ==> title_le(#[trigger] docs[i].0, #[trigger] docs[j].0)
}

/// The cursor after one step to the right in a collection of `n` documents.
pub open spec fn next_index(i: nat, n: nat) -> nat {
    if n == 0 {
        i
    } else {
        (i + 1) % (n as int) as nat
    }
}

/// The cursor after one step to the left in a collection of `n` documents.
pub open spec fn prev_index(i: nat, n: nat) -> nat {
    if n == 0 {
        i
    } else if i == 0 {
        (n - 1) as nat
    } else {
        (i - 1) as nat
    }
}

/// A stored `(title, content)` pair as characters.
pub open spec fn view_pair(p: (String, String)) -> DocModel {
    (p.0@, p.1@)
}

/// A key as the viewer reads it.
#[derive(Clone, Copy, Debug, PartialEq, Eq, Structural)]
pub enum Key {
    Char(char),
    Esc,
    Left,
    Right,
    Other,
}

/// What the surrounding loop does after a key event.
#[derive(Clone, Copy, Debug, PartialEq, Eq, Structural)]
pub enum Action {
    /// Leave the loop and restore the terminal.
    Quit,
    /// The cursor moved: draw the screen again.
    Redraw,
    /// Nothing changed: wait for the next event.
    Wait,
}

/// `q`, `Q` and Escape end the session.
pub open spec fn is_quit_key(k: Key) -> bool {
    k == Key::Char('q') || k == Key::Char('Q') || k == Key::Esc
}

/// The documents ordered by title, and the index of the one on display.
pub struct PoemViewer {
    poems: Vec<(String, String)>,
    current_index: usize,
}

impl PoemViewer {
    /// The documents, in display order.
    pub closed spec fn docs(&self) -> Seq<DocModel> {
        self.poems@.map_values(|p: (String, String)| view_pair(p))
    }

    /// The index of the document on display.
    pub closed spec fn cursor(&self) -> nat {
        self.current_index as nat
    }

    /// The collection is ordered by title and the cursor points into it
    /// (or is zero when there is nothing to point at).
    pub open spec fn wf(&self) -> bool {
        &&& sorted_by_title(self.docs())
        &&& if self.docs().len() == 0 { self.cursor() == 0 } else { self.cursor() < self.docs().len() }
    }

    /// Builds the collection from a directory listing, given as `(file name,
    /// content)` pairs of the readable files: the text files are kept, titled
    /// by their names without extension, and ordered by title. The cursor
    /// starts on the first document.
    pub fn from_files(files: Vec<(String, String)>) -> (r: PoemViewer)
        ensures
            r.wf(),
            r.cursor() == 0,
            r.docs().to_multiset() == documents_of(files@.map_values(|p: (String, String)| view_pair(p))).to_multiset(),
            r.docs().len() == documents_of(files@.map_values(|p: (String, String)| view_pair(p))).len(),
    {
        let ghost input = files@.map_values(|p: (String, String)| view_pair(p));
        let mut poems: Vec<(String, String)> = Vec::new();
        let mut i: usize = 0;
        while i < files.len()
            invariant
                i <= files.len(),
                input == files@.map_values(|p: (String, String)| view_pair(p)),
                sorted_by_title(poems@.map_values(|p: (String, String)| view_pair(p))),
                poems@.map_values(|p: (String, String)| view_pair(p)).to_multiset()
                    == documents_of(input.subrange(0, i as int)).to_multiset(),
            decreases files.len() - i,
        {
            let ghost before = poems@.map_values(|p: (String, String)| view_pair(p));
            assert(input.subrange(0, i + 1).drop_last() =~= input.subrange(0, i as int));
            assert(input.subrange(0, i + 1).last() == input[i as int]);
            let t = title_of(files[i].0.as_str());
            match t {
                Some(title) => {
                    let content = files[i].1.clone();
                    let pos = insertion_point(&poems, title.as_str());
                    poems.insert(pos, (title, content));
                    proof {
                        let d = (title@, content@);
                        let after = poems@.map_values(|p: (String, String)| view_pair(p));
                        assert(after =~= before.insert(pos as int, d));
                        vstd::seq_lib::to_multiset_insert(before, pos as int, d);
                        assert forall|a: int, b: int| 0 <= a < b < after.len() implies title_le(
                            #[trigger] after[a].0,
                            #[trigger] after[b].0,
                        ) by {
                            if b < pos {
                                assert(after[a] == before[a] && after[b] == before[b]);
                            } else if b == pos {
                                assert(after[a] == before[a] && after[b] == d);
                                if a < pos - 1 {
                                    lemma_title_le_transitive(before[a].0, before[pos - 1].0, title@);
                                }
                            } else if a < pos {
                                assert(after[a] == before[a] && after[b] == before[b - 1]);
                            } else if a == pos {
                                assert(after[a] == d && after[b] == before[b - 1]);
                                lemma_title_le_total(before[pos as int].0, title@);
                                if b - 1 > pos {
                                    lemma_title_le_transitive(title@, before[pos as int].0, before[b - 1].0);
                                }
                            } else {
                                assert(after[a] == before[a - 1] && after[b] == before[b - 1]);
                            }
                        }
                    }
                },
                None => {},
            }
            i = i + 1;
        }
        assert(input.subrange(0, files.len() as int) =~= input);
        assert(poems@.map_values(|p: (String, String)| view_pair(p)).to_multiset().len()
            == documents_of(input).to_multiset().len());
        PoemViewer { poems, current_index: 0 }
    }

    /// The number of documents.
    pub fn len(&self) -> (r: usize)
        ensures
            r == self.docs().len(),
    {
        self.poems.len()
    }

    /// Whether there are no documents.
    pub fn is_empty(&self) -> (r: bool)
        ensures
            r == (self.docs().len() == 0),
    {
        self.poems.len() == 0
    }

    /// The index of the document on display.
    pub fn current_index(&self) -> (r: usize)
        ensures
            r == self.cursor(),
    {
        self.current_index
    }

    /// The title of the document at `i`.
    pub fn title(&self, i: usize) -> (r: &str)
        requires
            i < self.docs().len(),
        ensures
            r@ == self.docs()[i as int].0,
    {
        self.poems[i].0.as_str()
    }

    /// The content of the document at `i`.
    pub fn content(&self, i: usize) -> (r: &str)
        requires
            i < self.docs().len(),
        ensures
            r@ == self.docs()[i as int].1,
    {
        self.poems[i].1.as_str()
    }

    /// Reacts to one key event. Only presses count: a release or repeat
    /// leaves everything as it is. A quit key ends the session whatever the
    /// cursor; the arrow keys move the cursor and ask for a redraw; any other
    /// key is ignored.
    pub fn handle_key(&mut self, key: Key, pressed: bool) -> (r: Action)
        requires
            old(self).wf(),
        ensures
            final(self).wf(),
            final(self).docs() == old(self).docs(),
            pressed && is_quit_key(key) ==> r == Action::Quit,
            pressed && key == Key::Left ==> r == Action::Redraw
                && final(self).cursor() == prev_index(old(self).cursor(), old(self).docs().len()),
            pressed && key == Key::Right ==> r == Action::Redraw
                && final(self).cursor() == next_index(old(self).cursor(), old(self).docs().len()),
            !(pressed && (is_quit_key(key) || key == Key::Left || key == Key::Right)) ==> r
                == Action::Wait,
            r != Action::Redraw ==> final(self).cursor() == old(self).cursor(),
    {
        if !pressed {
            return Action::Wait;
        }
        match key {
            Key::Char(c) => {
                if c == 'q' || c == 'Q' {
                    Action::Quit
                } else {
                    Action::Wait
                }
            },
            Key::Esc => Action::Quit,
            Key::Left => {
                self.prev_poem();
                Action::Redraw
            },
            Key::Right => {
                self.next_poem();
                Action::Redraw
            },
            Key::Other => Action::Wait,
        }
    }

    /// Moves the cursor to the next document, from the last one back to the
    /// first. Nothing changes on an empty collection.
    pub fn next_poem(&mut self)
        requires
            old(self).wf(),
        ensures
            final(self).wf(),
            final(self).docs() == old(self).docs(),
            final(self).cursor() == next_index(old(self).cursor(), old(self).docs().len()),
    {
        if self.poems.len() > 0 {
            self.current_index = (self.current_index + 1) % self.poems.len();
        }
    }

    /// Moves the cursor to the previous document, from the first one round to
    /// the last. Nothing changes on an empty collection.
    pub fn prev_poem(&mut self)
        requires
            old(self).wf(),
        ensures
            final(self).wf(),
            final(self).docs() == old(self).docs(),
            final(self).cursor() == prev_index(old(self).cursor(), old(self).docs().len()),
    {
        if self.poems.len() > 0 {
            if self.current_index == 0 {
                self.current_index = self.poems.len() - 1;
            } else {
                self.current_index = self.current_index - 1;
            }
        }
    }
}

/// The cursor after `k` steps to the right from `i`.
pub open spec fn next_steps(i: nat, n: nat, k: nat) -> nat
    decreases k,
{
    if k == 0 {
        i
    } else {
        next_index(next_steps(i, n, (k - 1) as nat), n)
    }
}

/// The cursor after `k` steps to the left from `i`.
pub open spec fn prev_steps(i: nat, n: nat, k: nat) -> nat
    decreases k,
{
    if k == 0 {
        i
    } else {
        prev_index(prev_steps(i, n, (k - 1) as nat), n)
    }
}

proof fn lemma_next_steps_mod(i: nat, n: nat, k: nat)
    requires
        n > 0,
        i < n,
    ensures
        next_steps(i, n, k) == (i + k) as int % (n as int),
    decreases k,
{
    if k == 0 {
        vstd::arithmetic::div_mod::lemma_small_mod(i, n);
    } else {
        lemma_next_steps_mod(i, n, (k - 1) as nat);
        vstd::arithmetic::div_mod::lemma_add_mod_noop(i + k - 1, 1, n as int);
        if n == 1 {
            vstd::arithmetic::div_mod::lemma_mod_pos_bound((i + k) as int, 1);
            vstd::arithmetic::div_mod::lemma_mod_pos_bound(next_steps(i, n, (k - 1) as nat) as int + 1, 1);
        } else {
            vstd::arithmetic::div_mod::lemma_small_mod(1, n);
        }
    }
}

proof fn lemma_prev_steps_mod(i: nat, n: nat, k: nat)
    requires
        n > 0,
        i < n,
    ensures
        prev_steps(i, n, k) == (i + k * (n - 1)) % (n as int),
    decreases k,
{
    if k == 0 {
        vstd::arithmetic::div_mod::lemma_small_mod(i, n);
    } else {
        lemma_prev_steps_mod(i, n, (k - 1) as nat);
        let j = prev_steps(i, n, (k - 1) as nat);
        let x = i + (k - 1) * (n - 1);
        assert(x + (n - 1) == i + k * (n - 1)) by (nonlinear_arith)
            requires
                x == i + (k - 1) * (n - 1),
        ;
        vstd::arithmetic::div_mod::lemma_add_mod_noop(x, n - 1, n as int);
        vstd::arithmetic::div_mod::lemma_small_mod((n - 1) as nat, n);
        assert(0 <= j < n);
        if j == 0 {
            vstd::arithmetic::div_mod::lemma_small_mod((n - 1) as nat, n);
        } else {
            vstd::arithmetic::div_mod::lemma_mod_add_multiples_vanish(j - 1, n as int);
            vstd::arithmetic::div_mod::lemma_small_mod((j - 1) as nat, n);
        }
    }
}

/// Stepping right as many times as there are documents comes back to where
/// it started, and so does stepping left.
pub proof fn lemma_full_cycle(n: nat, i: nat)
    requires
        n > 0,
        i < n,
    ensures
        next_steps(i, n, n) == i,
        prev_steps(i, n, n) == i,
{
    lemma_next_steps_mod(i, n, n);
    vstd::arithmetic::div_mod::lemma_mod_add_multiples_vanish(i as int, n as int);
    vstd::arithmetic::div_mod::lemma_small_mod(i, n);
    lemma_prev_steps_mod(i, n, n);
    vstd::arithmetic::div_mod::lemma_mod_multiples_vanish((n - 1) as int, i as int, n as int);
    assert(n * (n - 1) == (n - 1) * n) by (nonlinear_arith);
}

/// A step left from the first document lands on the last, and a step right
/// from the last lands on the first.
pub proof fn lemma_wrap_ends(n: nat)
    requires
        n > 0,
    ensures
        prev_index(0, n) == n - 1,
        next_index((n - 1) as nat, n) == 0,
{
    vstd::arithmetic::div_mod::lemma_mod_self_0(n as int);
}

/// Where a document titled `title` goes in the ordered `poems`: after every
/// title that comes no later than it, before the first that comes later.
fn insertion_point(poems: &Vec<(String, String)>, title: &str) -> (r: usize)
    requires
        sorted_by_title(poems@.map_values(|p: (String, String)| view_pair(p))),
    ensures
        r <= poems@.len(),
        r > 0 ==> title_le(poems@[r - 1].0@, title@),
        r < poems@.len() ==> !title_le(poems@[r as int].0@, title@),
{
    let mut j: usize = 0;
    while j < poems.len()
        invariant
            j <= poems@.len(),
            j > 0 ==> title_le(poems@[j - 1].0@, title@),
        decreases poems@.len() - j,
    {
        if !title_le_exec(poems[j].0.as_str(), title) {
            return j;
        }
        j = j + 1;
    }
    j
}

} // verus!
