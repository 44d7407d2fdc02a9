//! The reserved words of the language and the token kinds they stand for.

use vstd::prelude::*;
use crate::lexical::token_type::TokenType;
use crate::text::str_eq_chars;
use crate::lexical::lexing::reserves_no_end;

verus! {

/// The reserved words and their token kinds.
pub open spec fn keyword_table() -> Map<Seq<char>, TokenType> {
    map![
        seq!['a', 'n', 'd'] => TokenType::And,
        seq!['a', 's', 'y', 'n', 'c'] => TokenType::Async,
        seq!['a', 'w', 'a', 'i', 't'] => TokenType::Await,
        seq!['e', 'l', 's', 'e'] => TokenType::Else,
        seq!['e', 'n', 'u', 'm'] => TokenType::Enum,
        seq!['f', 'a', 'l', 's', 'e'] => TokenType::False,
        seq!['f', 'n'] => TokenType::Fn,
        seq!['f', 'o', 'r'] => TokenType::For,
        seq!['i', 'f'] => TokenType::If,
        seq!['i', 'n'] => TokenType::In,
        seq!['l', 'e', 't'] => TokenType::Let,
        seq!['m', 'a', 't', 'c', 'h'] => TokenType::Match,
        seq!['n', 'u', 'l', 'l'] => TokenType::Null,
        seq!['o', 'r'] => TokenType::Or,
        seq!['r', 'e', 't', 'u', 'r', 'n'] => TokenType::Return,
        seq!['s', 't', 'r', 'u', 'c', 't'] => TokenType::Struct,
        seq!['t', 'r', 'u', 'e'] => TokenType::True,
        seq!['w', 'h', 'i', 'l', 'e'] => TokenType::While
    ]
}

/// No reserved word stands for the end of the input.
pub proof fn law_keywords_reserve_no_end()
    ensures
        reserves_no_end(keyword_table()),
{
}

/// The map that a list of insertions builds, later insertions replacing earlier ones.
pub open spec fn inserted(entries: Seq<(Vec<char>, TokenType)>) -> Map<Seq<char>, TokenType>
    decreases entries.len(),
{
    if entries.len() == 0 {
        Map::empty()
    } else {
        inserted(entries.drop_last()).insert(entries.last().0@, entries.last().1)
    }
}

/// Entries after position `i` do not mention `k`, so the map of the first `i` entries decides `k`.
proof fn lemma_inserted_prefix(entries: Seq<(Vec<char>, TokenType)>, k: Seq<char>, i: int)
    requires
        0 <= i <= entries.len(),
        forall|j: int| i <= j < entries.len() ==> entries[j].0@ != k,
    ensures
        inserted(entries).contains_key(k) == inserted(entries.take(i)).contains_key(k),
        inserted(entries).contains_key(k) ==> inserted(entries)[k] == inserted(entries.take(i))[k],
    decreases entries.len(),
{
    if entries.len() > i {
        lemma_inserted_prefix(entries.drop_last(), k, i);
        assert(entries.drop_last().take(i) =~= entries.take(i));
    } else {
        assert(entries.take(i) =~= entries);
    }
}

/// A table from reserved words to the token kinds they stand for, kept as a
/// list of entries and searched from the newest one.
pub struct Keywords {
    entries: Vec<(Vec<char>, TokenType)>,
}

impl View for Keywords {
    type V = Map<Seq<char>, TokenType>;

    closed spec fn view(&self) -> Map<Seq<char>, TokenType> {
        inserted(self.entries@)
    }
}

impl Keywords {
    fn add(&mut self, word: Vec<char>, token_type: TokenType)
        ensures
            final(self)@ == old(self)@.insert(word@, token_type),
    {
        let ghost w = word@;
        self.entries.push((word, token_type));
        assert(self.entries@.drop_last() =~= old(self).entries@);
    }

    /// The table of all reserved words of the language.
    pub fn new() -> (r: Self)
        ensures
            r@ == keyword_table(),
    {
        let mut k = Keywords { entries: Vec::new() };
        k.add(vec!['a', 'n', 'd'], TokenType::And);
        k.add(vec!['a', 's', 'y', 'n', 'c'], TokenType::Async);
        k.add(vec!['a', 'w', 'a', 'i', 't'], TokenType::Await);
        k.add(vec!['e', 'l', 's', 'e'], TokenType::Else);
        k.add(vec!['e', 'n', 'u', 'm'], TokenType::Enum);
        k.add(vec!['f', 'a', 'l', 's', 'e'], TokenType::False);
        k.add(vec!['f', 'n'], TokenType::Fn);
        k.add(vec!['f', 'o', 'r'], TokenType::For);
        k.add(vec!['i', 'f'], TokenType::If);
        k.add(vec!['i', 'n'], TokenType::In);
        k.add(vec!['l', 'e', 't'], TokenType::Let);
        k.add(vec!['m', 'a', 't', 'c', 'h'], TokenType::Match);
        k.add(vec!['n', 'u', 'l', 'l'], TokenType::Null);
        k.add(vec!['o', 'r'], TokenType::Or);
        k.add(vec!['r', 'e', 't', 'u', 'r', 'n'], TokenType::Return);
        k.add(vec!['s', 't', 'r', 'u', 'c', 't'], TokenType::Struct);
        k.add(vec!['t', 'r', 'u', 'e'], TokenType::True);
        k.add(vec!['w', 'h', 'i', 'l', 'e'], TokenType::While);
        assert(inserted(Seq::<(Vec<char>, TokenType)>::empty()) == Map::<Seq<char>, TokenType>::empty());
        assert(k@ =~= keyword_table());
        k
    }

    /// The token kind of the reserved word `key`, if it is one.
    pub fn get(&self, key: &str) -> (r: Option<&TokenType>)
        ensures
            r matches Some(t) ==> self@.contains_key(key@) && *t == self@[key@],
            r is None ==> !self@.contains_key(key@),
    {
        let mut i = self.entries.len();
        while i > 0
            invariant
                i <= self.entries@.len(),
                forall|j: int| i <= j < self.entries@.len() ==> self.entries@[j].0@ != key@,
            decreases i,
        {
            if str_eq_chars(key, &self.entries[i - 1].0) {
                proof {
                    lemma_inserted_prefix(self.entries@, key@, i as int);
                    assert(self.entries@.take(i as int).drop_last() =~= self.entries@.take(i - 1));
                }
                return Some(&self.entries[i - 1].1);
            }
            i = i - 1;
        }
        proof {
            lemma_inserted_prefix(self.entries@, key@, 0);
            assert(self.entries@.take(0) =~= Seq::<(Vec<char>, TokenType)>::empty());
        }
        None
    }
}

impl Default for Keywords {
    /// The table of all reserved words of the language.
    fn default() -> (r: Self)
        ensures
            r@ == keyword_table(),
    {
        Keywords::new()
    }
}

} // verus!
