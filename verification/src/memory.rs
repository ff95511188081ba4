//! Word-addressed memory: the locations that hold references, and the
//! card-mark bytes of card-marked pointer arrays.

use crate::edges::Slot;
use vstd::prelude::*;

verus! {

/// Mathematical content of a [`Memory`].
pub struct MemoryView {
    pub words: Seq<usize>,
    pub cards: Seq<u8>,
}

impl MemoryView {
    /// The word at `slot`; a location outside the memory reads as zero.
    pub open spec fn load(self, slot: Slot) -> usize {
        if slot.0 < self.words.len() {
            self.words[slot.0 as int]
        } else {
            0
        }
    }

    /// The memory after writing `word` to `slot`; a location outside the
    /// memory takes no write.
    pub open spec fn store(self, slot: Slot, word: usize) -> MemoryView {
        if slot.0 < self.words.len() {
            MemoryView { words: self.words.update(slot.0 as int, word), cards: self.cards }
        } else {
            self
        }
    }

    /// The card mark at index `card`; a mark outside the memory reads as zero.
    pub open spec fn card(self, card: usize) -> u8 {
        if card < self.cards.len() {
            self.cards[card as int]
        } else {
            0
        }
    }

    /// The memory after clearing the card mark at index `card`.
    pub open spec fn clear_card(self, card: usize) -> MemoryView {
        if card < self.cards.len() {
            MemoryView { words: self.words, cards: self.cards.update(card as int, 0u8) }
        } else {
            self
        }
    }
}

/// The runtime's memory as the tracing layer sees it.
pub struct Memory {
    /// Every word that can hold a reference, addressed by [`Slot`].
    pub words: Vec<usize>,
    /// Card-mark bytes, addressed by card index.
    pub cards: Vec<u8>,
}

impl View for Memory {
    type V = MemoryView;

    open spec fn view(&self) -> MemoryView {
        MemoryView { words: self.words@, cards: self.cards@ }
    }
}

impl Memory {
    /// A memory of `n_words` zero words and `n_cards` zero card marks.
    pub fn new(n_words: usize, n_cards: usize) -> (m: Memory)
        ensures
            m@.words == Seq::new(n_words as nat, |i: int| 0usize),
            m@.cards == Seq::new(n_cards as nat, |i: int| 0u8),
    {
        let mut words: Vec<usize> = Vec::new();
        let mut i: usize = 0;
        while i < n_words
            invariant
                i <= n_words,
                words@ == Seq::new(i as nat, |k: int| 0usize),
            decreases n_words - i,
        {
            words.push(0);
            i = i + 1;
            assert(words@ =~= Seq::new(i as nat, |k: int| 0usize));
        }
        let mut cards: Vec<u8> = Vec::new();
        let mut j: usize = 0;
        while j < n_cards
            invariant
                j <= n_cards,
                cards@ == Seq::new(j as nat, |k: int| 0u8),
            decreases n_cards - j,
        {
            cards.push(0);
            j = j + 1;
            assert(cards@ =~= Seq::new(j as nat, |k: int| 0u8));
        }
        Memory { words, cards }
    }

    /// Reads the word at `slot`.
    pub fn load(&self, slot: Slot) -> (word: usize)
        ensures
            word == self@.load(slot),
    {
        if slot.0 < self.words.len() {
            self.words[slot.0]
        } else {
            0
        }
    }

    /// Writes `word` to `slot`.
    pub fn store(&mut self, slot: Slot, word: usize)
        ensures
            final(self)@ == old(self)@.store(slot, word),
    {
        if slot.0 < self.words.len() {
            self.words[slot.0] = word;
        }
    }

    /// Reads the card mark at index `card`.
    pub fn card(&self, card: usize) -> (mark: u8)
        ensures
            mark == self@.card(card),
    {
        if card < self.cards.len() {
            self.cards[card]
        } else {
            0
        }
    }

    /// Sets the card mark at index `card`; a mark outside the memory takes
    /// no write.
    pub fn mark_card(&mut self, card: usize, mark: u8)
        ensures
            card < old(self)@.cards.len() ==> final(self)@ == (MemoryView {
                words: old(self)@.words,
                cards: old(self)@.cards.update(card as int, mark),
            }),
            card >= old(self)@.cards.len() ==> final(self)@ == old(self)@,
    {
        if card < self.cards.len() {
            self.cards[card] = mark;
        }
    }

    /// Clears the card mark at index `card`.
    pub fn clear_card(&mut self, card: usize)
        ensures
            final(self)@ == old(self)@.clear_card(card),
    {
        if card < self.cards.len() {
            self.cards[card] = 0;
        }
    }
}

} // verus!
