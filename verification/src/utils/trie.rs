//! A prefix tree from reserved words to token kinds, and a cursor that walks
//! it one character at a time.

use vstd::prelude::*;
use std::collections::HashMap;
use crate::common::errors::error::CompilerErrorKind;
use crate::scanner::tokens::TokenType;

verus! {

broadcast use vstd::std_specs::hash::group_hash_axioms;

/// The kind that `words` gives to `word`, if it holds the word.
pub open spec fn kind_of(words: Map<Seq<char>, TokenType>, word: Seq<char>) -> Option<TokenType> {
    if words.contains_key(word) {
        Some(words[word])
    } else {
        None
    }
}

/// Different characters have different codes.
proof fn lemma_codes_differ(c: char, d: char)
    requires
        c != d,
    ensures
        c as u32 != d as u32,
{
}

/// A mapping from words to token kinds that can be filled and asked.
pub trait Trie {
    /// The words that the trie holds, each with its kind.
    spec fn words(&self) -> Map<Seq<char>, TokenType>;

    /// Adds `key` with the kind `value`; a word that was there gets the new kind.
    fn insert(&mut self, key: &str, value: TokenType)
        ensures
            final(self).words() == old(self).words().insert(key@, value),
    ;

    /// The kind of `word`, if the trie holds exactly this word.
    fn query(&self, word: &str) -> (kind: Option<TokenType>)
        ensures
            kind == kind_of(self.words(), word@),
    ;
}

/// A node of the tree: its children by the code of the character on the edge,
/// and a mark with a kind if a word ends here.
pub struct TrieNode {
    ch: HashMap<u32, TrieNode>,
    leaf: bool,
    token_type: TokenType,
}

impl TrieNode {
    /// Whether a word ends at this node.
    pub closed spec fn is_leaf(&self) -> bool {
        self.leaf
    }

    /// The kind stored at this node; it counts only where the node is a leaf.
    pub closed spec fn kind(&self) -> TokenType {
        self.token_type
    }

    /// Whether an edge for `c` leaves this node.
    pub closed spec fn has_child(&self, c: char) -> bool {
        self.ch@.contains_key(c as u32)
    }

    /// The node at the end of the edge for `c`.
    pub closed spec fn child(&self, c: char) -> TrieNode
        recommends
            self.has_child(c),
    {
        self.ch@[c as u32]
    }

    /// The kind of the word spelled by `word` from this node down: the path
    /// must exist and end on a leaf.
    pub open spec fn lookup(&self, word: Seq<char>) -> Option<TokenType>
        decreases word.len(),
    {
        if word.len() == 0 {
            if self.is_leaf() {
                Some(self.kind())
            } else {
                None
            }
        } else if self.has_child(word[0]) {
            self.child(word[0]).lookup(word.drop_first())
        } else {
            None
        }
    }

    /// A node without children that ends no word.
    pub fn new() -> (node: Self)
        ensures
            !node.is_leaf(),
            node.kind() == TokenType::NoToken,
            forall|c: char| !node.has_child(c),
    {
        Self { ch: HashMap::new(), leaf: false, token_type: TokenType::NoToken }
    }

    /// Puts a fresh node at the end of the edge for `key`, in place of what
    /// was there.
    pub fn add_node(&mut self, key: char)
        ensures
            final(self).is_leaf() == old(self).is_leaf(),
            final(self).kind() == old(self).kind(),
            final(self).has_child(key),
            !final(self).child(key).is_leaf(),
            final(self).child(key).kind() == TokenType::NoToken,
            forall|c: char| !final(self).child(key).has_child(c),
            forall|c: char|
                c != key ==> final(self).has_child(c) == old(self).has_child(c)
                    && final(self).child(c) == old(self).child(c),
    {
        self.ch.insert(key as u32, TrieNode::new());
        assert forall|c: char| c != key implies self.has_child(c) == old(self).has_child(c)
            && self.child(c) == old(self).child(c) by {
            lemma_codes_differ(c, key);
        }
    }

    /// Marks this node as the end of a word.
    pub fn set_leaf(&mut self)
        ensures
            final(self).is_leaf(),
            final(self).kind() == old(self).kind(),
            forall|c: char|
                final(self).has_child(c) == old(self).has_child(c)
                    && final(self).child(c) == old(self).child(c),
    {
        self.leaf = true;
    }

    /// Stores the kind of the word that ends at this node.
    pub fn set_token_type(&mut self, token: TokenType)
        ensures
            final(self).kind() == token,
            final(self).is_leaf() == old(self).is_leaf(),
            forall|c: char|
                final(self).has_child(c) == old(self).has_child(c)
                    && final(self).child(c) == old(self).child(c),
    {
        self.token_type = token;
    }

    /// Adds the word `key[from..]` below this node with the kind `value`.
    fn insert_from(&mut self, key: &Vec<char>, from: usize, value: TokenType)
        requires
            from <= key.len(),
        ensures
            forall|w: Seq<char>|
                #[trigger] final(self).lookup(w) == if w == key@.skip(from as int) {
                    Some(value)
                } else {
                    old(self).lookup(w)
                },
        decreases key.len() - from,
    {
        if from == key.len() {
            self.leaf = true;
            self.token_type = value;
            assert forall|w: Seq<char>|
                #[trigger] self.lookup(w) == if w == key@.skip(from as int) {
                    Some(value)
                } else {
                    old(self).lookup(w)
                } by {
                if w.len() == 0 {
                    assert(w =~= key@.skip(from as int));
                }
            }
        } else {
            let c = key[from];
            let code = c as u32;
            let mut below = match self.ch.remove(&code) {
                Some(node) => node,
                None => TrieNode::new(),
            };
            let ghost before = below;
            below.insert_from(key, from + 1, value);
            self.ch.insert(code, below);
            proof {
                let rest = key@.skip(from as int);
                assert(rest.drop_first() =~= key@.skip(from + 1));
                assert forall|w: Seq<char>|
                    #[trigger] self.lookup(w) == if w == rest {
                        Some(value)
                    } else {
                        old(self).lookup(w)
                    } by {
                    if w.len() > 0 && w[0] == c {
                        if w != rest {
                            assert(w.drop_first() != rest.drop_first()) by {
                                if w.drop_first() == rest.drop_first() {
                                    assert(w =~= seq![c] + w.drop_first());
                                    assert(rest =~= seq![c] + rest.drop_first());
                                }
                            }
                            assert(below.lookup(w.drop_first()) == before.lookup(w.drop_first()));
                            if !old(self).has_child(c) {
                                lemma_no_children_no_words(before, w.drop_first());
                            }
                        }
                    } else if w.len() > 0 {
                        lemma_codes_differ(w[0], c);
                    }
                }
            }
        }
    }
}

/// A node that is no leaf and has no children spells no word.
proof fn lemma_no_children_no_words(node: TrieNode, word: Seq<char>)
    requires
        !node.is_leaf(),
        forall|c: char| !node.has_child(c),
    ensures
        node.lookup(word) is None,
{
}

/// The characters of `s`, in order.
pub fn to_chars(s: &str) -> (v: Vec<char>)
    ensures
        v@ == s@,
{
    let mut v: Vec<char> = Vec::new();
    for c in it: s.chars()
        invariant
            it.seq() == s@,
            v@ == s@.take(it.index() as int),
    {
        v.push(c);
    }
    v
}

/// The trie of the language's reserved words.
pub struct KeywordTrie {
    root: TrieNode,
}

impl View for KeywordTrie {
    type V = Map<Seq<char>, TokenType>;

    /// The words that the trie holds, each with its kind.
    closed spec fn view(&self) -> Map<Seq<char>, TokenType> {
        Map::new(
            |w: Seq<char>| self.root.lookup(w) is Some,
            |w: Seq<char>| self.root.lookup(w)->0,
        )
    }
}

impl Trie for KeywordTrie {
    open spec fn words(&self) -> Map<Seq<char>, TokenType> {
        self@
    }

    fn insert(&mut self, key: &str, value: TokenType) {
        let chars = to_chars(key);
        self.root.insert_from(&chars, 0, value);
        assert(chars@.skip(0) =~= key@);
    }

    fn query(&self, word: &str) -> (kind: Option<TokenType>) {
        let mut cur = &self.root;
        assert(word@.skip(0) =~= word@);
        for c in it: word.chars()
            invariant
                it.seq() == word@,
                self.root.lookup(word@) == cur.lookup(word@.skip(it.index() as int)),
        {
            let ghost rest = word@.skip(it.index() as int);
            assert(rest.drop_first() =~= word@.skip(it.index() + 1));
            match cur.ch.get(&(c as u32)) {
                Some(node) => {
                    cur = node;
                },
                None => {
                    return None;
                },
            }
        }
        if cur.leaf {
            Some(cur.token_type)
        } else {
            None
        }
    }
}

/// The reserved words of the language, each with its kind.
pub open spec fn keywords() -> Map<Seq<char>, TokenType> {
    Map::<Seq<char>, TokenType>::empty().insert("break"@, TokenType::Break).insert(
        "continue"@,
        TokenType::Continue,
    ).insert("if"@, TokenType::If).insert("else"@, TokenType::Else).insert(
        "for"@,
        TokenType::For,
    ).insert("while"@, TokenType::While).insert("return"@, TokenType::Return).insert(
        "int"@,
        TokenType::KeyInt,
    ).insert("long"@, TokenType::KeyLong).insert("float"@, TokenType::KeyFloat).insert(
        "double"@,
        TokenType::KeyDouble,
    ).insert("string"@, TokenType::KeyString).insert("print"@, TokenType::Print)
}

impl KeywordTrie {
    /// A trie without words.
    pub fn empty() -> (trie: Self)
        ensures
            trie@ == Map::<Seq<char>, TokenType>::empty(),
    {
        let trie = KeywordTrie { root: TrieNode::new() };
        assert forall|w: Seq<char>| trie.root.lookup(w) is None by {
            lemma_no_children_no_words(trie.root, w);
        }
        trie
    }

    /// The trie of the language's reserved words.
    pub fn new() -> (trie: Self)
        ensures
            trie@ == keywords(),
    {
        let mut keyword_trie = KeywordTrie::empty();

        keyword_trie.insert("break", TokenType::Break);
        keyword_trie.insert("continue", TokenType::Continue);
        keyword_trie.insert("if", TokenType::If);
        keyword_trie.insert("else", TokenType::Else);
        keyword_trie.insert("for", TokenType::For);
        keyword_trie.insert("while", TokenType::While);
        keyword_trie.insert("return", TokenType::Return);

        keyword_trie.insert("int", TokenType::KeyInt);
        keyword_trie.insert("long", TokenType::KeyLong);
        keyword_trie.insert("float", TokenType::KeyFloat);
        keyword_trie.insert("double", TokenType::KeyDouble);
        keyword_trie.insert("string", TokenType::KeyString);

        keyword_trie.insert("print", TokenType::Print);

        keyword_trie
    }

    /// A cursor at the root of this trie, with an empty buffer.
    pub fn into_checker(&self) -> (checker: KeywordTrieChecker<'_>)
        ensures
            checker.wf(),
            checker@ == CheckerView::fresh(self@),
    {
        let checker = KeywordTrieChecker {
            trie: self,
            curr: Some(&self.root),
            cache: String::new(),
            fed: Ghost(Seq::empty()),
        };
        assert forall|w: Seq<char>| #[trigger]
            self.root.lookup(w) == self.root.lookup(Seq::<char>::empty() + w) by {}
        checker
    }
}

/// The words of a trie after the pairs of `pairs` were inserted into `words`,
/// one after the other.
pub open spec fn insert_all(
    words: Map<Seq<char>, TokenType>,
    pairs: Seq<(Seq<char>, TokenType)>,
) -> Map<Seq<char>, TokenType>
    decreases pairs.len(),
{
    if pairs.len() == 0 {
        words
    } else {
        insert_all(words, pairs.drop_last()).insert(pairs.last().0, pairs.last().1)
    }
}

/// In a trie filled from nothing by a run of insertions, a word is found with
/// the kind of its last insertion, and a word that was never inserted is not
/// found: neither a strict prefix of an inserted word, nor a word that leaves
/// the paths of the inserted words.
pub proof fn lemma_query_after_inserts(pairs: Seq<(Seq<char>, TokenType)>, word: Seq<char>)
    ensures
        (forall|i: int| 0 <= i < pairs.len() ==> pairs[i].0 != word) ==> kind_of(
            insert_all(Map::empty(), pairs),
            word,
        ) is None,
        forall|i: int|
            0 <= i < pairs.len() && pairs[i].0 == word && (forall|j: int|
                i < j < pairs.len() ==> pairs[j].0 != word) ==> kind_of(
                insert_all(Map::empty(), pairs),
                word,
            ) == Some(pairs[i].1),
    decreases pairs.len(),
{
    if pairs.len() > 0 {
        let front = pairs.drop_last();
        lemma_query_after_inserts(front, word);
        assert forall|i: int|
            0 <= i < pairs.len() && pairs[i].0 == word && (forall|j: int|
                i < j < pairs.len() ==> pairs[j].0 != word) implies kind_of(
            insert_all(Map::empty(), pairs),
            word,
        ) == Some(pairs[i].1) by {
            if i < pairs.len() - 1 {
                assert(front[i] == pairs[i]);
                assert forall|j: int| i < j < front.len() implies front[j].0 != word by {}
            }
        }
        if forall|i: int| 0 <= i < pairs.len() ==> pairs[i].0 != word {
            assert forall|i: int| 0 <= i < front.len() implies front[i].0 != word by {}
        }
    }
}

/// Feeding a word to a checker appends it to what was fed before.
proof fn lemma_feed_appends(checker: CheckerView, word: Seq<char>)
    ensures
        checker.feed(word).words == checker.words,
        checker.feed(word).fed == checker.fed + word,
        checker.feed(word).text == checker.text + word,
    decreases word.len(),
{
    if word.len() > 0 {
        lemma_feed_appends(checker.update(word[0]), word.drop_first());
    }
}

/// A fresh checker that was fed the characters of a word one at a time answers
/// as a query of the trie for the whole word does.
pub proof fn lemma_check_agrees_with_query(words: Map<Seq<char>, TokenType>, word: Seq<char>)
    ensures
        CheckerView::fresh(words).feed(word).verdict() == kind_of(words, word),
{
    lemma_feed_appends(CheckerView::fresh(words), word);
}

/// What a checker is: the words of its trie, the characters fed to it since
/// its cursor was last at the root, and the text in its buffer.
pub struct CheckerView {
    pub words: Map<Seq<char>, TokenType>,
    pub fed: Seq<char>,
    pub text: Seq<char>,
}

impl CheckerView {
    /// A checker over `words` to which nothing was fed.
    pub open spec fn fresh(words: Map<Seq<char>, TokenType>) -> CheckerView {
        CheckerView { words, fed: Seq::empty(), text: Seq::empty() }
    }

    /// The checker after one more character.
    pub open spec fn update(self, c: char) -> CheckerView {
        CheckerView { words: self.words, fed: self.fed.push(c), text: self.text.push(c) }
    }

    /// The checker after the characters of `word`, fed in order.
    pub open spec fn feed(self, word: Seq<char>) -> CheckerView
        decreases word.len(),
    {
        if word.len() == 0 {
            self
        } else {
            self.update(word[0]).feed(word.drop_first())
        }
    }

    /// What `check` answers: the kind of the fed characters, if they spell a
    /// word of the trie.
    pub open spec fn verdict(self) -> Option<TokenType> {
        kind_of(self.words, self.fed)
    }

    /// The checker after `check`: at the root again, with an empty buffer.
    pub open spec fn reset(self) -> CheckerView {
        CheckerView::fresh(self.words)
    }
}

/// A cursor into a [`KeywordTrie`] that advances one character at a time and
/// keeps the characters it was given.
pub struct KeywordTrieChecker<'a> {
    trie: &'a KeywordTrie,
    curr: Option<&'a TrieNode>,
    cache: String,
    fed: Ghost<Seq<char>>,
}

impl<'a> View for KeywordTrieChecker<'a> {
    type V = CheckerView;

    closed spec fn view(&self) -> CheckerView {
        CheckerView { words: self.trie@, fed: self.fed@, text: self.cache@ }
    }
}

impl<'a> KeywordTrieChecker<'a> {
    /// The cursor stands where the fed characters lead: on the node reached
    /// from the root along them, or nowhere if an edge was missing.
    pub closed spec fn wf(&self) -> bool {
        match self.curr {
            Some(node) => forall|w: Seq<char>| #[trigger]
                node.lookup(w) == self.trie.root.lookup(self.fed@ + w),
            None => forall|w: Seq<char>| #[trigger] self.trie.root.lookup(self.fed@ + w) is None,
        }
    }

    /// The kind of `word` in the trie, whatever was fed to the checker.
    pub fn query(&self, word: &str) -> (kind: Option<TokenType>)
        ensures
            kind == kind_of(self@.words, word@),
    {
        self.trie.query(word)
    }

    /// Records `c` in the buffer and moves the cursor along the edge for `c`;
    /// without such an edge the cursor is dead until the next `check`.
    pub fn update(&mut self, c: char)
        requires
            old(self).wf(),
        ensures
            final(self).wf(),
            final(self)@ == old(self)@.update(c),
    {
        let ghost before = self.fed@;
        if let Some(cur) = self.curr {
            let next = cur.ch.get(&(c as u32));
            proof {
                match next {
                    Some(node) => {
                        assert forall|w: Seq<char>| #[trigger]
                            node.lookup(w) == self.trie.root.lookup(before.push(c) + w) by {
                            let cw = seq![c] + w;
                            assert(cw.drop_first() =~= w);
                            assert(cur.lookup(cw) == node.lookup(w));
                            assert(before + cw =~= before.push(c) + w);
                        }
                    },
                    None => {
                        assert forall|w: Seq<char>| #[trigger]
                            self.trie.root.lookup(before.push(c) + w) is None by {
                            let cw = seq![c] + w;
                            assert(cur.lookup(cw) is None);
                            assert(before + cw =~= before.push(c) + w);
                        }
                    },
                }
            }
            self.curr = next;
        } else {
            proof {
                assert forall|w: Seq<char>| #[trigger]
                    self.trie.root.lookup(before.push(c) + w) is None by {
                    assert(before + (seq![c] + w) =~= before.push(c) + w);
                }
            }
        }
        self.cache.push(c);
        self.fed = Ghost(before.push(c));
    }

    /// The kind of the fed characters if they spell a reserved word; the
    /// cursor returns to the root and the buffer is emptied.
    pub fn check(&mut self) -> (kind: Option<TokenType>)
        requires
            old(self).wf(),
        ensures
            final(self).wf(),
            kind == old(self)@.verdict(),
            final(self)@ == old(self)@.reset(),
    {
        let mut return_value = None;
        proof {
            let nothing = Seq::<char>::empty();
            if let Some(node) = self.curr {
                assert(node.lookup(nothing) == self.trie.root.lookup(self.fed@ + nothing));
            }
        }
        if let Some(cur) = self.curr {
            if cur.leaf {
                return_value = Some(cur.token_type);
            }
        }
        self.curr = Some(&self.trie.root);
        self.cache = String::new();
        self.fed = Ghost(Seq::empty());
        proof {
            assert forall|w: Seq<char>| #[trigger]
                self.trie.root.lookup(w) == self.trie.root.lookup(Seq::<char>::empty() + w) by {}
        }
        return_value
    }

    /// The buffered text, which is then emptied; the cursor stays.
    pub fn get_str(&mut self) -> (text: Result<String, CompilerErrorKind>)
        requires
            old(self).wf(),
        ensures
            final(self).wf(),
            text matches Ok(s) && s@ == old(self)@.text,
            final(self)@ == (CheckerView { text: Seq::empty(), ..old(self)@ }),
    {
        let return_value = Ok(self.cache.clone());
        self.cache = String::new();
        return_value
    }

    /// Whether `c` can continue an identifier or a keyword.
    pub fn can_consume(&self, c: &char) -> (b: bool)
        ensures
            b == is_word_char(*c),
    {
        is_ascii_alphanumeric(*c) || *c == '_'
    }
}

/// An ASCII letter.
pub open spec fn is_letter(c: char) -> bool {
    ('a' <= c && c <= 'z') || ('A' <= c && c <= 'Z')
}

/// An ASCII decimal digit.
pub open spec fn is_digit(c: char) -> bool {
    '0' <= c && c <= '9'
}

/// A character that can continue an identifier: an ASCII letter, an ASCII
/// digit or an underscore.
pub open spec fn is_word_char(c: char) -> bool {
    is_letter(c) || is_digit(c) || c == '_'
}

/// Whether `c` is an ASCII letter.
pub fn is_ascii_alphabetic(c: char) -> (b: bool)
    ensures
        b == is_letter(c),
{
    (c >= 'a' && c <= 'z') || (c >= 'A' && c <= 'Z')
}

/// Whether `c` is an ASCII decimal digit.
pub fn is_ascii_digit(c: char) -> (b: bool)
    ensures
        b == is_digit(c),
{
    c >= '0' && c <= '9'
}

/// Whether `c` is an ASCII letter or an ASCII decimal digit.
pub fn is_ascii_alphanumeric(c: char) -> (b: bool)
    ensures
        b == (is_letter(c) || is_digit(c)),
{
    is_ascii_alphabetic(c) || is_ascii_digit(c)
}

} // verus!
