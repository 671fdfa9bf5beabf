//! Vocabulary table and WordPiece-style tokenizer: text in, a fixed-length
//! sequence of token ids and its attention mask out.
use vstd::prelude::*;

use crate::text::{
    chars_of, is_whitespace, lower_of, lowercase, same_chars, trim_chars, trimmed, white_space,
};

verus! {

/// Length of every token sequence handed to the model.
pub const MAX_LEN: usize = 128;

/// Id used for an unknown word when the vocabulary has no `[UNK]` entry.
pub const UNKNOWN_FALLBACK_ID: i64 = 100;

/// Id used for padding when the vocabulary has no `[PAD]` entry.
pub const PAD_FALLBACK_ID: i64 = 0;

/// Marker that opens every sequence.
pub open spec fn begin_marker() -> Seq<char> {
    seq!['[', 'C', 'L', 'S', ']']
}

/// Marker that closes the tokens of the text.
pub open spec fn end_marker() -> Seq<char> {
    seq!['[', 'S', 'E', 'P', ']']
}

/// Marker used to pad a sequence to its fixed length.
pub open spec fn pad_marker() -> Seq<char> {
    seq!['[', 'P', 'A', 'D', ']']
}

/// Marker that stands for a word the vocabulary does not know.
pub open spec fn unknown_marker() -> Seq<char> {
    seq!['[', 'U', 'N', 'K', ']']
}

/// Prefix tried when a word is not in the vocabulary as it stands.
pub open spec fn subword_prefix() -> char {
    '#'
}

/// Punctuation characters: each is a token of its own and ends a word.
pub open spec fn is_punct(c: char) -> bool {
    c == ',' || c == '.' || c == '!' || c == '?' || c == ';' || c == ':' || c == '"' || c == '\''
        || c == '-'
}

/// Characters that end the word being read.
pub open spec fn is_separator(c: char) -> bool {
    white_space(c) || is_punct(c)
}

/// The pending word as a list of zero or one pieces.
pub open spec fn flushed(word: Seq<char>) -> Seq<Seq<char>> {
    if word.len() > 0 {
        seq![word]
    } else {
        seq![]
    }
}

/// The pieces read from position `i` of `s` on, with `word` read so far.
pub open spec fn pieces_from(s: Seq<char>, i: int, word: Seq<char>) -> Seq<Seq<char>>
    decreases s.len() - i,
{
    if i >= s.len() || i < 0 {
        flushed(word)
    } else if is_separator(s[i]) {
        flushed(word) + (if is_punct(s[i]) {
            seq![seq![s[i]]]
        } else {
            seq![]
        }) + pieces_from(s, i + 1, seq![])
    } else {
        pieces_from(s, i + 1, word.push(s[i]))
    }
}

/// The words and punctuation marks of `s`, in order.
pub open spec fn pieces(s: Seq<char>) -> Seq<Seq<char>> {
    pieces_from(s, 0, seq![])
}

/// The last index below `n` at which `tok` stands in `vocab`.
pub open spec fn lookup_upto(vocab: Seq<Seq<char>>, n: int, tok: Seq<char>) -> Option<int>
    decreases n,
{
    if n <= 0 {
        None
    } else if vocab[n - 1] == tok {
        Some(n - 1)
    } else {
        lookup_upto(vocab, n - 1, tok)
    }
}

/// The id of `tok`: the line on which it stands, the last one where it
/// stands on several.
pub open spec fn vocab_id(vocab: Seq<Seq<char>>, tok: Seq<char>) -> Option<int> {
    lookup_upto(vocab, vocab.len() as int, tok)
}

/// The id of a piece: its own entry, else the entry with the subword
/// prefix, else the unknown marker's, else the fixed fallback.
pub open spec fn token_id(vocab: Seq<Seq<char>>, tok: Seq<char>) -> int {
    match vocab_id(vocab, tok) {
        Some(i) => i,
        None => match vocab_id(vocab, seq![subword_prefix()] + tok) {
            Some(i) => i,
            None => match vocab_id(vocab, unknown_marker()) {
                Some(i) => i,
                None => UNKNOWN_FALLBACK_ID as int,
            },
        },
    }
}

/// A marker's id as a list of zero or one ids: a marker absent from the
/// vocabulary is left out.
pub open spec fn marker_ids(vocab: Seq<Seq<char>>, marker: Seq<char>) -> Seq<int> {
    match vocab_id(vocab, marker) {
        Some(i) => seq![i],
        None => seq![],
    }
}

/// The id used for padding.
pub open spec fn pad_id(vocab: Seq<Seq<char>>) -> int {
    match vocab_id(vocab, pad_marker()) {
        Some(i) => i,
        None => PAD_FALLBACK_ID as int,
    }
}

/// The id of each piece.
pub open spec fn piece_ids(vocab: Seq<Seq<char>>, ps: Seq<Seq<char>>) -> Seq<int> {
    ps.map_values(|p: Seq<char>| token_id(vocab, p))
}

/// Begin marker, the ids of the pieces, end marker: before fitting.
pub open spec fn raw_ids(vocab: Seq<Seq<char>>, s: Seq<char>) -> Seq<int> {
    marker_ids(vocab, begin_marker()) + piece_ids(vocab, pieces(s)) + marker_ids(vocab, end_marker())
}

/// `ids` cut or padded on the right to exactly `MAX_LEN` entries.
pub open spec fn fitted(ids: Seq<int>, pad: int) -> Seq<int> {
    if ids.len() >= MAX_LEN {
        ids.subrange(0, MAX_LEN as int)
    } else {
        ids + Seq::new((MAX_LEN - ids.len()) as nat, |_j: int| pad)
    }
}

/// The token sequence of an already lower-cased text.
pub open spec fn token_ids(vocab: Seq<Seq<char>>, s: Seq<char>) -> Seq<int> {
    fitted(raw_ids(vocab, s), pad_id(vocab))
}

/// A sequence of ids as mathematical integers.
pub open spec fn as_ints(v: Seq<i64>) -> Seq<int> {
    v.map_values(|x: i64| x as int)
}

/// The attention mask of a token sequence: 0 where the id is 0, else 1.
pub open spec fn mask_of(tokens: Seq<i64>) -> Seq<i64> {
    tokens.map_values(|t: i64|
        if t == 0 {
            0i64
        } else {
            1i64
        })
}

/// The lines of `s` from position `i` on, with `line` read so far; a final
/// empty line is not one.
pub open spec fn lines_from(s: Seq<char>, i: int, line: Seq<char>) -> Seq<Seq<char>>
    decreases s.len() - i,
{
    if i >= s.len() || i < 0 {
        flushed(line)
    } else if s[i] == '\n' {
        seq![line] + lines_from(s, i + 1, seq![])
    } else {
        lines_from(s, i + 1, line.push(s[i]))
    }
}

/// The vocabulary that a newline-delimited text describes: one entry per
/// line, white space trimmed, the id of an entry being its line number.
pub open spec fn vocabulary_of(text: Seq<char>) -> Seq<Seq<char>> {
    trimmed_all(lines_from(text, 0, seq![]))
}

proof fn lemma_lines_len(s: Seq<char>, i: int, line: Seq<char>)
    requires
        0 <= i <= s.len(),
    ensures
        lines_from(s, i, line).len() <= s.len() - i + 1,
    decreases s.len() - i,
{
    if i < s.len() {
        if s[i] == '\n' {
            lemma_lines_len(s, i + 1, seq![]);
        } else {
            lemma_lines_len(s, i + 1, line.push(s[i]));
        }
    }
}

/// The token of each entry.
pub open spec fn entries_of(v: Seq<Vec<char>>) -> Seq<Seq<char>> {
    v.map_values(|t: Vec<char>| t@)
}

/// Each line trimmed.
pub open spec fn trimmed_all(lines: Seq<Seq<char>>) -> Seq<Seq<char>> {
    lines.map_values(|l: Seq<char>| trimmed(l))
}

proof fn lemma_push_entry(v: Seq<Vec<char>>, d: Seq<Seq<char>>, t: Vec<char>, l: Seq<char>)
    requires
        entries_of(v) == trimmed_all(d),
        t@ == trimmed(l),
    ensures
        entries_of(v.push(t)) == trimmed_all(d.push(l)),
{
    assert(entries_of(v).len() == v.len());
    assert(trimmed_all(d).len() == d.len());
    assert forall|j: int| 0 <= j < d.len() implies v[j]@ == trimmed(d[j]) by {
        assert(entries_of(v)[j] == trimmed_all(d)[j]);
    }
    assert(entries_of(v.push(t)) =~= trimmed_all(d.push(l)));
}

proof fn lemma_push_id(
    vocab: Seq<Seq<char>>,
    t: Seq<i64>,
    x: i64,
    m: Seq<int>,
    d: Seq<Seq<char>>,
    p: Seq<char>,
)
    requires
        as_ints(t) == m + piece_ids(vocab, d),
        x as int == token_id(vocab, p),
    ensures
        as_ints(t.push(x)) == m + piece_ids(vocab, d.push(p)),
{
    assert(as_ints(t.push(x)) =~= as_ints(t).push(x as int));
    assert(piece_ids(vocab, d.push(p)) =~= piece_ids(vocab, d).push(token_id(vocab, p)));
    assert((m + piece_ids(vocab, d)).push(x as int) =~= m + piece_ids(vocab, d).push(x as int));
}

proof fn lemma_push_marker(t: Seq<i64>, x: i64, m: Seq<int>)
    requires
        as_ints(t) == m,
    ensures
        as_ints(t.push(x)) == m + seq![x as int],
{
    assert(as_ints(t.push(x)) =~= m + seq![x as int]);
}

/// Whether `ch` is one of the punctuation characters that form tokens of
/// their own.
pub fn is_punctuation(ch: char) -> (r: bool)
    ensures
        r == is_punct(ch),
{
    ch == ',' || ch == '.' || ch == '!' || ch == '?' || ch == ';' || ch == ':' || ch == '"' || ch
        == '\'' || ch == '-'
}

/// Token vocabulary: entry `i` is the token whose id is `i`.
pub struct Tokenizer {
    vocab: Vec<Vec<char>>,
}

impl View for Tokenizer {
    type V = Seq<Seq<char>>;

    closed spec fn view(&self) -> Seq<Seq<char>> {
        entries_of(self.vocab@)
    }
}

impl Tokenizer {
    /// Every id fits in an `i64`.
    #[verifier::type_invariant]
    closed spec fn ids_fit(&self) -> bool {
        self.vocab.len() <= i64::MAX
    }

    /// Builds the vocabulary from its newline-delimited text: one token per
    /// line, trimmed, with the line number as its id. Where a token stands
    /// on several lines the last one gives its id.
    pub fn load(vocab_text: &str) -> (r: Tokenizer)
        requires
            vocab_text@.len() < i64::MAX,
        ensures
            r@ == vocabulary_of(vocab_text@),
    {
        let chars = chars_of(vocab_text);
        let ghost s = chars@;
        let mut vocab: Vec<Vec<char>> = Vec::new();
        let ghost mut done: Seq<Seq<char>> = seq![];
        let mut line: Vec<char> = Vec::new();
        let mut i: usize = 0;
        proof {
            lemma_lines_len(s, 0, seq![]);
        }
        while i < chars.len()
            invariant
                s == chars@,
                s.len() < i64::MAX,
                i <= s.len(),
                lines_from(s, 0, seq![]) == done + lines_from(s, i as int, line@),
                entries_of(vocab@) == trimmed_all(done),
            decreases s.len() - i,
        {
            let c = chars[i];
            if c == '\n' {
                let t = trim_chars(&line);
                proof {
                    assert(lines_from(s, i as int, line@) == seq![line@] + lines_from(
                        s,
                        i + 1,
                        seq![],
                    ));
                    assert(done + (seq![line@] + lines_from(s, i + 1, seq![])) =~= done.push(
                        line@,
                    ) + lines_from(s, i + 1, seq![]));
                }
                let ghost prev_v = vocab@;
                let ghost prev_d = done;
                vocab.push(t);
                proof {
                    done = done.push(line@);
                    lemma_push_entry(prev_v, prev_d, t, line@);
                }
                line = Vec::new();
                proof {
                    assert(line@ =~= seq![]);
                }
            } else {
                line.push(c);
            }
            i = i + 1;
        }
        proof {
            assert(lines_from(s, i as int, line@) == flushed(line@));
        }
        if line.len() > 0 {
            let t = trim_chars(&line);
            let ghost prev_v = vocab@;
            let ghost prev_d = done;
            vocab.push(t);
            proof {
                done = done.push(line@);
                lemma_push_entry(prev_v, prev_d, t, line@);
            }
        }
        proof {
            assert(done =~= lines_from(s, 0, seq![]));
            assert(vocab.len() == done.len());
        }
        Tokenizer { vocab }
    }

    /// The id of `tok`, if the vocabulary has it.
    fn find(&self, tok: &Vec<char>) -> (r: Option<i64>)
        ensures
            r matches Some(id) ==> vocab_id(self@, tok@) == Some(id as int),
            r is None ==> vocab_id(self@, tok@) is None,
    {
        proof {
            use_type_invariant(self);
        }
        let mut n: usize = self.vocab.len();
        while n > 0
            invariant
                n <= self.vocab.len() <= i64::MAX,
                self@.len() == self.vocab.len(),
                vocab_id(self@, tok@) == lookup_upto(self@, n as int, tok@),
            decreases n,
        {
            assert(self@[n - 1] == self.vocab@[n - 1]@);
            if same_chars(&self.vocab[n - 1], tok) {
                return Some((n - 1) as i64);
            }
            n = n - 1;
        }
        None
    }

    /// The id of a marker, or `fallback` where the vocabulary lacks it.
    fn marker_or(&self, marker: &Vec<char>, fallback: i64) -> (r: i64)
        ensures
            r as int == match vocab_id(self@, marker@) {
                Some(i) => i,
                None => fallback as int,
            },
    {
        match self.find(marker) {
            Some(id) => id,
            None => fallback,
        }
    }

    /// The id of one piece of text, by the fallback chain of `token_id`.
    fn piece_id(&self, tok: &Vec<char>) -> (r: i64)
        ensures
            r as int == token_id(self@, tok@),
    {
        if let Some(id) = self.find(tok) {
            return id;
        }
        let mut prefixed: Vec<char> = vec!['#'];
        let mut k: usize = 0;
        while k < tok.len()
            invariant
                k <= tok.len(),
                prefixed@ == seq![subword_prefix()] + tok@.subrange(0, k as int),
            decreases tok.len() - k,
        {
            prefixed.push(tok[k]);
            proof {
                assert(prefixed@ =~= seq![subword_prefix()] + tok@.subrange(0, k + 1));
            }
            k = k + 1;
        }
        proof {
            assert(tok@.subrange(0, tok.len() as int) =~= tok@);
        }
        if let Some(id) = self.find(&prefixed) {
            return id;
        }
        let unk: Vec<char> = vec!['[', 'U', 'N', 'K', ']'];
        proof {
            assert(unk@ =~= unknown_marker());
        }
        self.marker_or(&unk, UNKNOWN_FALLBACK_ID)
    }

    /// The id of `token`: its own entry, else its entry with the subword
    /// prefix, else the unknown marker's id, else `UNKNOWN_FALLBACK_ID`.
    pub fn get_token_id(&self, token: &str) -> (r: i64)
        ensures
            r as int == token_id(self@, token@),
    {
        let tok = chars_of(token);
        self.piece_id(&tok)
    }
    /// The token sequence of a text that is already lower case: the begin
    /// marker, the ids of its words and punctuation marks, the end marker,
    /// then padding or truncation to exactly `MAX_LEN` ids.
    pub fn tokenize_lowered(&self, lowered: &str) -> (r: Vec<i64>)
        ensures
            r@.len() == MAX_LEN,
            as_ints(r@) == token_ids(self@, lowered@),
    {
        let chars = chars_of(lowered);
        let ghost s = chars@;
        let ghost vocab = self@;
        let mut tokens: Vec<i64> = Vec::new();
        let cls: Vec<char> = vec!['[', 'C', 'L', 'S', ']'];
        proof {
            assert(cls@ =~= begin_marker());
            assert(as_ints(tokens@) =~= seq![]);
        }
        if let Some(id) = self.find(&cls) {
            proof {
                lemma_push_marker(tokens@, id, seq![]);
            }
            tokens.push(id);
        }
        let ghost begin = marker_ids(vocab, begin_marker());
        proof {
            assert(as_ints(tokens@) =~= begin + piece_ids(vocab, seq![]));
        }
        let ghost mut done: Seq<Seq<char>> = seq![];
        let mut word: Vec<char> = Vec::new();
        let mut i: usize = 0;
        proof {
            assert(word@ =~= seq![]);
        }
        while i < chars.len()
            invariant
                s == chars@,
                vocab == self@,
                begin == marker_ids(vocab, begin_marker()),
                i <= s.len(),
                pieces(s) == done + pieces_from(s, i as int, word@),
                as_ints(tokens@) == begin + piece_ids(vocab, done),
            decreases s.len() - i,
        {
            let c = chars[i];
            let punct = is_punctuation(c);
            if is_whitespace(c) || punct {
                let ghost before = done;
                let ghost w = word@;
                if word.len() > 0 {
                    let id = self.piece_id(&word);
                    proof {
                        lemma_push_id(vocab, tokens@, id, begin, done, word@);
                    }
                    tokens.push(id);
                    proof {
                        done = done.push(word@);
                    }
                    word = Vec::new();
                }
                proof {
                    assert(done =~= before + flushed(w));
                }
                let ghost mid = done;
                if punct {
                    let single: Vec<char> = vec![c];
                    let id = self.piece_id(&single);
                    proof {
                        lemma_push_id(vocab, tokens@, id, begin, done, single@);
                    }
                    tokens.push(id);
                    proof {
                        done = done.push(single@);
                        assert(single@ =~= seq![c]);
                    }
                }
                proof {
                    let punct_part: Seq<Seq<char>> = if is_punct(c) {
                        seq![seq![c]]
                    } else {
                        seq![]
                    };
                    assert(done =~= mid + punct_part);
                    assert(pieces_from(s, i as int, w) == flushed(w) + punct_part + pieces_from(
                        s,
                        i + 1,
                        seq![],
                    ));
                    assert(before + (flushed(w) + punct_part + pieces_from(s, i + 1, seq![]))
                        =~= done + pieces_from(s, i + 1, seq![]));
                    assert(word@ =~= seq![]);
                }
            } else {
                proof {
                    assert(pieces_from(s, i as int, word@) == pieces_from(s, i + 1, word@.push(c)));
                }
                word.push(c);
            }
            i = i + 1;
        }
        proof {
            assert(pieces_from(s, i as int, word@) == flushed(word@));
        }
        let ghost before = done;
        if word.len() > 0 {
            let id = self.piece_id(&word);
            proof {
                lemma_push_id(vocab, tokens@, id, begin, done, word@);
            }
            tokens.push(id);
            proof {
                done = done.push(word@);
            }
        }
        proof {
            assert(done =~= pieces(s));
        }
        let sep: Vec<char> = vec!['[', 'S', 'E', 'P', ']'];
        proof {
            assert(sep@ =~= end_marker());
            assert(as_ints(tokens@) + seq![] =~= as_ints(tokens@));
        }
        if let Some(id) = self.find(&sep) {
            proof {
                lemma_push_marker(tokens@, id, as_ints(tokens@));
            }
            tokens.push(id);
        }
        let ghost raw = raw_ids(vocab, s);
        proof {
            assert(as_ints(tokens@) =~= raw);
        }
        let pad_chars: Vec<char> = vec!['[', 'P', 'A', 'D', ']'];
        proof {
            assert(pad_chars@ =~= pad_marker());
        }
        let pad = self.marker_or(&pad_chars, PAD_FALLBACK_ID);
        let ghost raw_len = tokens.len();
        while tokens.len() < MAX_LEN
            invariant
                raw == raw_ids(vocab, s),
                pad as int == pad_id(vocab),
                raw_len == raw.len(),
                tokens@.len() >= raw_len,
                forall|j: int| 0 <= j < raw_len ==> tokens@[j] as int == raw[j],
                forall|j: int| raw_len <= j < tokens@.len() ==> tokens@[j] == pad,
            decreases MAX_LEN - tokens.len(),
        {
            tokens.push(pad);
        }
        tokens.truncate(MAX_LEN);
        proof {
            assert(as_ints(tokens@) =~= fitted(raw, pad_id(vocab)));
        }
        tokens
    }

    /// The token sequence of `text`: lower-cased, then as
    /// `tokenize_lowered`.
    pub fn tokenize(&self, text: &str) -> (r: Vec<i64>)
        ensures
            r@.len() == MAX_LEN,
            as_ints(r@) == token_ids(self@, lower_of(text@)),
            text@.len() == 0 ==> as_ints(r@) == token_ids(self@, seq![]),
    {
        let lowered = lowercase(text);
        proof {
            if text@.len() == 0 {
                assert(lowered@ =~= seq![]);
            }
        }
        self.tokenize_lowered(lowered.as_str())
    }
}

/// The attention mask of a token sequence: 0 where the id is 0, 1 elsewhere.
pub fn attention_mask(tokens: &Vec<i64>) -> (r: Vec<i64>)
    ensures
        r@ == mask_of(tokens@),
{
    let mut r: Vec<i64> = Vec::new();
    let mut i: usize = 0;
    while i < tokens.len()
        invariant
            i <= tokens.len(),
            r@ == mask_of(tokens@.subrange(0, i as int)),
        decreases tokens.len() - i,
    {
        let m: i64 = if tokens[i] == 0 {
            0
        } else {
            1
        };
        r.push(m);
        proof {
            assert(r@ =~= mask_of(tokens@.subrange(0, i + 1)));
        }
        i = i + 1;
    }
    proof {
        assert(tokens@.subrange(0, i as int) =~= tokens@);
    }
    r
}

/// The two inputs of the model for `text`: its token sequence and the
/// attention mask of that sequence, both `MAX_LEN` long.
pub fn model_inputs(tokenizer: &Tokenizer, text: &str) -> (r: (Vec<i64>, Vec<i64>))
    ensures
        r.0@.len() == MAX_LEN,
        as_ints(r.0@) == token_ids(tokenizer@, lower_of(text@)),
        r.1@ == mask_of(r.0@),
{
    let tokens = tokenizer.tokenize(text);
    let mask = attention_mask(&tokens);
    (tokens, mask)
}

/// Tokenizing is deterministic: for a fixed vocabulary, two sequences that
/// are both the token sequence of the same text are the same sequence.
pub proof fn lemma_tokenize_deterministic(
    vocab: Seq<Seq<char>>,
    text: Seq<char>,
    a: Seq<i64>,
    b: Seq<i64>,
)
    requires
        as_ints(a) == token_ids(vocab, lower_of(text)),
        as_ints(b) == token_ids(vocab, lower_of(text)),
    ensures
        a == b,
{
    assert(as_ints(a).len() == a.len());
    assert(as_ints(b).len() == b.len());
    assert forall|i: int| 0 <= i < a.len() implies a[i] == b[i] by {
        assert(as_ints(a)[i] == a[i] as int);
        assert(as_ints(b)[i] == b[i] as int);
    }
    assert(a =~= b);
}

/// Every text, the empty one and one of any number of words included,
/// gives exactly `MAX_LEN` token ids.
pub proof fn lemma_token_ids_len(vocab: Seq<Seq<char>>, s: Seq<char>)
    ensures
        token_ids(vocab, s).len() == MAX_LEN,
{
}

/// The empty text gives the begin marker, the end marker, then padding,
/// where the vocabulary has both markers.
pub proof fn lemma_empty_text(vocab: Seq<Seq<char>>)
    requires
        vocab_id(vocab, begin_marker()) is Some,
        vocab_id(vocab, end_marker()) is Some,
    ensures
        token_ids(vocab, seq![])[0] == vocab_id(vocab, begin_marker())->0,
        token_ids(vocab, seq![])[1] == vocab_id(vocab, end_marker())->0,
        forall|k: int| 2 <= k < MAX_LEN ==> token_ids(vocab, seq![])[k] == pad_id(vocab),
{
    assert(pieces(seq![]) =~= seq![]);
    assert(piece_ids(vocab, seq![]) =~= seq![]);
    let raw = raw_ids(vocab, seq![]);
    assert(raw =~= seq![vocab_id(vocab, begin_marker())->0, vocab_id(vocab, end_marker())->0]);
}

/// The mask is 0 exactly where the token id is 0, and as long as the
/// sequence.
pub proof fn lemma_mask_zero_iff(tokens: Seq<i64>)
    ensures
        mask_of(tokens).len() == tokens.len(),
        forall|i: int| 0 <= i < tokens.len() ==> (mask_of(tokens)[i] == 0 <==> tokens[i] == 0),
{
}

} // verus!
