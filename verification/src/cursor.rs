use vstd::prelude::*;

use crate::token::{views, Token, TokenView};

verus! {

/// A reader over a vector of tokens that can go back to a place it has
/// marked: the tokens, the index of the next one, and a stack of marked
/// indices.
pub struct TokenInput {
    tokens: Vec<Token>,
    index: usize,
    stack: Vec<usize>,
    checkpoints: Ghost<nat>,
    releases: Ghost<nat>,
}

/// The mathematical value of a [`TokenInput`]: the tokens, the index, the
/// marks, and how often a mark has been made (`checkpoints`) and taken away
/// again (`releases`) since the reader was made.
pub struct CursorView {
    pub tokens: Seq<TokenView>,
    pub index: int,
    pub stack: Seq<int>,
    pub checkpoints: nat,
    pub releases: nat,
}

impl View for TokenInput {
    type V = CursorView;

    closed spec fn view(&self) -> CursorView {
        CursorView {
            tokens: views(self.tokens@),
            index: self.index as int,
            stack: self.stack@.map_values(|mark: usize| mark as int),
            checkpoints: self.checkpoints@,
            releases: self.releases@,
        }
    }
}

impl CursorView {
    /// The index and every mark lie within the tokens or at their end, and
    /// the marks on the stack are those that were made and not taken away.
    pub open spec fn wf(self) -> bool {
        &&& 0 <= self.index <= self.tokens.len()
        &&& forall|i: int|
            0 <= i < self.stack.len() ==> 0 <= #[trigger] self.stack[i] <= self.tokens.len()
        &&& self.checkpoints == self.releases + self.stack.len()
    }

    /// The reader after a checkpoint: the index is marked on top of the
    /// stack.
    pub open spec fn marked(self) -> CursorView {
        CursorView {
            stack: self.stack.push(self.index),
            checkpoints: self.checkpoints + 1,
            ..self
        }
    }

    /// The reader after a rollback: it is back at the index marked last,
    /// and that mark is gone.
    pub open spec fn rolled_back(self) -> CursorView {
        CursorView {
            index: self.stack.last(),
            stack: self.stack.drop_last(),
            releases: self.releases + 1,
            ..self
        }
    }

    /// The reader after a commit: the mark made last is gone, the index
    /// stays.
    pub open spec fn committed(self) -> CursorView {
        CursorView { stack: self.stack.drop_last(), releases: self.releases + 1, ..self }
    }

    /// The reader at index `index`, all else the same.
    pub open spec fn at(self, index: int) -> CursorView {
        CursorView { index, ..self }
    }

    /// The two readers hold the same tokens, stand at the same index and
    /// have the same marks.
    pub open spec fn agrees(self, other: CursorView) -> bool {
        &&& self.tokens == other.tokens
        &&& self.index == other.index
        &&& self.stack == other.stack
    }

    /// Between `self` and the later state `after`, as many marks were taken
    /// away as were made.
    pub open spec fn balanced(self, after: CursorView) -> bool {
        after.checkpoints - self.checkpoints == after.releases - self.releases
    }
}

/// A rollback undoes everything since its checkpoint: wherever the reader
/// has moved in between, it is where it was before the checkpoint, with the
/// marks it had then.
pub proof fn lemma_rollback_restores(cursor: CursorView, moved: int)
    ensures
        cursor.marked().at(moved).rolled_back().agrees(cursor),
        cursor.balanced(cursor.marked().at(moved).rolled_back()),
{
    assert(cursor.stack.push(cursor.index).drop_last() =~= cursor.stack);
}

/// A commit keeps the move and forgets the checkpoint: the marks are as
/// they were before the checkpoint, the index is where the reader has moved.
pub proof fn lemma_commit_keeps(cursor: CursorView, moved: int)
    ensures
        cursor.marked().at(moved).committed().agrees(cursor.at(moved)),
        cursor.balanced(cursor.marked().at(moved).committed()),
{
    assert(cursor.stack.push(cursor.index).drop_last() =~= cursor.stack);
}

/// Where the stack of marks is as deep after some calls as it was before
/// them, as many marks were taken away in between as were made.
pub proof fn lemma_same_depth_is_balanced(before: CursorView, after: CursorView)
    requires
        before.wf(),
        after.wf(),
        after.stack.len() == before.stack.len(),
    ensures
        before.balanced(after),
{
}

impl TokenInput {
    /// The reader is well formed: see [`CursorView::wf`].
    pub open spec fn wf(&self) -> bool {
        self@.wf()
    }

    /// A reader at the first of `tokens`, with nothing marked.
    pub fn new(tokens: Vec<Token>) -> (input: TokenInput)
        ensures
            input.wf(),
            input@ == (CursorView {
                tokens: views(tokens@),
                index: 0,
                stack: Seq::empty(),
                checkpoints: 0,
                releases: 0,
            }),
    {
        let input = TokenInput {
            tokens,
            index: 0,
            stack: Vec::new(),
            checkpoints: Ghost(0),
            releases: Ghost(0),
        };
        assert(input@.stack =~= Seq::empty());
        input
    }

    /// Marks the current index: it goes on top of the stack.
    pub fn push(&mut self)
        requires
            old(self).wf(),
        ensures
            final(self).wf(),
            final(self)@ == old(self)@.marked(),
    {
        self.stack.push(self.index);
        self.checkpoints = Ghost(self.checkpoints@ + 1);
        assert(self@.stack =~= old(self)@.stack.push(old(self)@.index));
    }

    /// Goes back to the index marked last, and takes the mark away.
    pub fn pop(&mut self)
        requires
            old(self).wf(),
            old(self)@.stack.len() > 0,
        ensures
            final(self).wf(),
            final(self)@ == old(self)@.rolled_back(),
            forall|marks: Seq<int>, mark: int|
                old(self)@.stack == #[trigger] marks.push(mark) ==> final(self)@.stack == marks
                    && final(self)@.index == mark,
    {
        let ghost before = self@;
        assert forall|marks: Seq<int>, mark: int|
            before.stack == #[trigger] marks.push(mark) implies before.stack.drop_last() == marks
            && before.stack.last() == mark by {
            assert(marks.push(mark).drop_last() =~= marks);
        }
        match self.stack.pop() {
            Some(mark) => {
                assert(before.stack.last() == mark as int);
                self.index = mark;
            },
            None => {},
        }
        self.releases = Ghost(self.releases@ + 1);
        assert(self@.stack =~= before.stack.drop_last());
    }

    /// Takes the mark made last away and stays at the current index.
    pub fn drop(&mut self)
        requires
            old(self).wf(),
            old(self)@.stack.len() > 0,
        ensures
            final(self).wf(),
            final(self)@ == old(self)@.committed(),
            forall|marks: Seq<int>, mark: int|
                old(self)@.stack == #[trigger] marks.push(mark) ==> final(self)@.stack == marks,
    {
        let ghost before = self@;
        assert forall|marks: Seq<int>, mark: int|
            before.stack == #[trigger] marks.push(mark) implies before.stack.drop_last()
            == marks by {
            assert(marks.push(mark).drop_last() =~= marks);
        }
        let _ = self.stack.pop();
        self.releases = Ghost(self.releases@ + 1);
        assert(self@.stack =~= before.stack.drop_last());
    }

    /// Hands out the token at the current index and moves one on; at the
    /// end of the tokens, hands out `None` and stays.
    pub fn next(&mut self) -> (token: Option<Token>)
        requires
            old(self).wf(),
        ensures
            final(self).wf(),
            match token {
                Some(token) => {
                    &&& old(self)@.index < old(self)@.tokens.len()
                    &&& token@ == old(self)@.tokens[old(self)@.index]
                    &&& final(self)@ == old(self)@.at(old(self)@.index + 1)
                },
                None => {
                    &&& old(self)@.index == old(self)@.tokens.len()
                    &&& final(self)@ == old(self)@
                },
            },
    {
        if self.index >= self.tokens.len() {
            None
        } else {
            let result = self.tokens[self.index].clone();
            self.index += 1;
            assert(self@.stack == old(self)@.stack);
            Some(result)
        }
    }

    /// The token at the current index, or `None` at the end of the tokens.
    pub fn current(&self) -> (token: Option<Token>)
        requires
            self.wf(),
        ensures
            match token {
                Some(token) => {
                    &&& self@.index < self@.tokens.len()
                    &&& token@ == self@.tokens[self@.index]
                },
                None => self@.index == self@.tokens.len(),
            },
    {
        if self.index >= self.tokens.len() {
            None
        } else {
            Some(self.tokens[self.index].clone())
        }
    }

    /// The token before the current index. There is none at the first two
    /// indices.
    pub fn prev(&self) -> (token: Option<Token>)
        requires
            self.wf(),
        ensures
            match token {
                Some(token) => self@.index > 1 && token@ == self@.tokens[self@.index - 1],
                None => self@.index <= 1,
            },
    {
        if self.index <= 1 {
            None
        } else if (self.index - 1) >= self.tokens.len() {
            None
        } else {
            Some(self.tokens[self.index - 1].clone())
        }
    }

    /// The number of tokens.
    pub fn len(&self) -> (len: usize)
        ensures
            len == self@.tokens.len(),
    {
        self.tokens.len()
    }

    /// The current index.
    pub fn index(&self) -> (index: usize)
        ensures
            index == self@.index,
    {
        self.index
    }

    /// The token at index `i`.
    pub fn get(&self, i: usize) -> (token: &Token)
        requires
            i < self@.tokens.len(),
        ensures
            token@ == self@.tokens[i as int],
    {
        &self.tokens[i]
    }
}

} // verus!
