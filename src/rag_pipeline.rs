//! Classification of a user's question into an intent, with the symbol or file it names.
use vstd::prelude::*;
use vstd::string::StringSliceAdditionalSpecFns;

use crate::text::{
    byte_len, chars_of, contains_char, contains_seq, ends_with, ends_with_seq, has_sub,
    is_white, is_white_exec, longer_than_two_bytes, string_of,
};

verus! {

/// What `str::to_lowercase` returns for these characters.
pub uninterp spec fn lower_of(s: Seq<char>) -> Seq<char>;

/// What `char::is_alphanumeric` returns for this character.
pub uninterp spec fn alnum_of(c: char) -> bool;

/// What `char::is_uppercase` returns for this character.
pub uninterp spec fn upper_of(c: char) -> bool;

/// Relies on str::to_lowercase: the result depends on the characters alone.
#[verifier::external_body]
fn lowercase(s: &str) -> (r: String)
    ensures
        r@ == lower_of(s@),
{
    s.to_lowercase()
}

/// Relies on char::is_alphanumeric (Unicode Alphabetic or Numeric).
#[verifier::external_body]
fn is_alnum(c: char) -> (r: bool)
    ensures
        r == alnum_of(c),
{
    c.is_alphanumeric()
}

/// Relies on char::is_uppercase (Unicode Uppercase).
#[verifier::external_body]
fn is_upper(c: char) -> (r: bool)
    ensures
        r == upper_of(c),
{
    c.is_uppercase()
}

/// The words of `q` split on white space, and the word still open at its end.
pub open spec fn split_state(q: Seq<char>) -> (Seq<Seq<char>>, Seq<char>)
    decreases q.len(),
{
    if q.len() == 0 {
        (Seq::empty(), Seq::empty())
    } else {
        let st = split_state(q.drop_last());
        let c = q.last();
        if is_white(c) {
            if st.1.len() > 0 {
                (st.0.push(st.1), Seq::empty())
            } else {
                st
            }
        } else {
            (st.0, st.1.push(c))
        }
    }
}

/// The maximal runs of non-white-space characters of `q`, in order.
pub open spec fn words_of(q: Seq<char>) -> Seq<Seq<char>> {
    let st = split_state(q);
    if st.1.len() > 0 {
        st.0.push(st.1)
    } else {
        st.0
    }
}

/// A character that stays at the ends of a word when it is cleaned.
pub open spec fn keeps(c: char) -> bool {
    alnum_of(c) || c == '_'
}

pub open spec fn trim_front(w: Seq<char>) -> Seq<char>
    decreases w.len(),
{
    if w.len() > 0 && !keeps(w[0]) {
        trim_front(w.drop_first())
    } else {
        w
    }
}

pub open spec fn trim_back(w: Seq<char>) -> Seq<char>
    decreases w.len(),
{
    if w.len() > 0 && !keeps(w.last()) {
        trim_back(w.drop_last())
    } else {
        w
    }
}

/// The word without the punctuation at its two ends.
pub open spec fn clean(w: Seq<char>) -> Seq<char> {
    trim_back(trim_front(w))
}

/// Looks like an identifier: more than two bytes, and snake case or with a capital.
pub open spec fn symbol_like(c: Seq<char>) -> bool {
    byte_len(c) > 2 && (c.contains('_') || exists|k: int| 0 <= k < c.len() && upper_of(c[k]))
}

/// The first cleaned word that looks like an identifier, or the empty text.
pub open spec fn first_symbol(ws: Seq<Seq<char>>) -> Seq<char>
    decreases ws.len(),
{
    if ws.len() == 0 {
        Seq::empty()
    } else if symbol_like(clean(ws[0])) {
        clean(ws[0])
    } else {
        first_symbol(ws.drop_first())
    }
}

/// Names a source file by one of the known extensions.
pub open spec fn file_like(w: Seq<char>) -> bool {
    w.contains('.') && (ends_with(w, ".ts"@) || ends_with(w, ".tsx"@) || ends_with(w, ".js"@)
        || ends_with(w, ".jsx"@) || ends_with(w, ".rs"@) || ends_with(w, ".py"@) || ends_with(
        w,
        ".go"@,
    ))
}

/// The first word that names a source file, or the empty text.
pub open spec fn first_file(ws: Seq<Seq<char>>) -> Seq<char>
    decreases ws.len(),
{
    if ws.len() == 0 {
        Seq::empty()
    } else if file_like(ws[0]) {
        ws[0]
    } else {
        first_file(ws.drop_first())
    }
}

pub open spec fn symbol_of(q: Seq<char>) -> Seq<char> {
    first_symbol(words_of(q))
}

pub open spec fn file_of(q: Seq<char>) -> Seq<char> {
    first_file(words_of(q))
}

/// What a query intent is, as a mathematical value.
pub enum IntentView {
    Refactor { symbol: Seq<char> },
    Explain { symbol: Seq<char> },
    Debug { file: Seq<char> },
    Test { symbol: Seq<char> },
    General,
}

/// The intent of query `q` whose lower-case form is `l`: the first keyword group
/// that `l` contains decides.
pub open spec fn intent_with(q: Seq<char>, l: Seq<char>) -> IntentView {
    if has_sub(l, "refactor"@) {
        IntentView::Refactor { symbol: symbol_of(q) }
    } else if has_sub(l, "explain"@) || has_sub(l, "what is"@) || has_sub(l, "what does"@) {
        IntentView::Explain { symbol: symbol_of(q) }
    } else if has_sub(l, "debug"@) || has_sub(l, "fix"@) || has_sub(l, "error"@) {
        IntentView::Debug { file: file_of(q) }
    } else if has_sub(l, "test"@) || has_sub(l, "unit test"@) {
        IntentView::Test { symbol: symbol_of(q) }
    } else {
        IntentView::General
    }
}

pub open spec fn intent_of(q: Seq<char>) -> IntentView {
    intent_with(q, lower_of(q))
}

/// What a question asks for, with the symbol or file it names.
#[derive(Debug, Clone)]
pub enum QueryIntent {
    Refactor { symbol: String },
    Explain { symbol: String },
    Debug { file: String },
    Test { symbol: String },
    General,
}

impl View for QueryIntent {
    type V = IntentView;

    open spec fn view(&self) -> IntentView {
        match self {
            QueryIntent::Refactor { symbol } => IntentView::Refactor { symbol: symbol@ },
            QueryIntent::Explain { symbol } => IntentView::Explain { symbol: symbol@ },
            QueryIntent::Debug { file } => IntentView::Debug { file: file@ },
            QueryIntent::Test { symbol } => IntentView::Test { symbol: symbol@ },
            QueryIntent::General => IntentView::General,
        }
    }
}

pub open spec fn word_views(ws: Seq<Vec<char>>) -> Seq<Seq<char>> {
    ws.map_values(|w: Vec<char>| w@)
}

/// Splits `q` on white space.
pub fn split_words(q: &Vec<char>) -> (r: Vec<Vec<char>>)
    ensures
        word_views(r@) == words_of(q@),
{
    let mut words: Vec<Vec<char>> = Vec::new();
    let mut cur: Vec<char> = Vec::new();
    let mut i: usize = 0;
    while i < q.len()
        invariant
            i <= q@.len(),
            (word_views(words@), cur@) == split_state(q@.take(i as int)),
        decreases q@.len() - i,
    {
        let c = q[i];
        assert(q@.take(i + 1).drop_last() =~= q@.take(i as int));
        if is_white_exec(c) {
            if cur.len() > 0 {
                let ghost before = words@;
                words.push(cur);
                cur = Vec::new();
                assert(word_views(words@) =~= word_views(before).push(
                    split_state(q@.take(i as int)).1,
                ));
                assert(cur@ =~= Seq::<char>::empty());
            }
        } else {
            cur.push(c);
        }
        i = i + 1;
    }
    assert(q@.take(q@.len() as int) =~= q@);
    if cur.len() > 0 {
        let ghost before = words@;
        words.push(cur);
        assert(word_views(words@) =~= word_views(before).push(split_state(q@).1));
    }
    words
}

fn keeps_exec(c: char) -> (r: bool)
    ensures
        r == keeps(c),
{
    is_alnum(c) || c == '_'
}

/// The word without the punctuation at its two ends.
pub fn clean_word(w: &Vec<char>) -> (r: Vec<char>)
    ensures
        r@ == clean(w@),
{
    let n = w.len();
    let mut i: usize = 0;
    assert(w@.subrange(0, n as int) =~= w@);
    while i < n && !keeps_exec(w[i])
        invariant
            i <= n,
            n == w@.len(),
            trim_front(w@) == trim_front(w@.subrange(i as int, n as int)),
        decreases n - i,
    {
        assert(w@.subrange(i as int, n as int).drop_first() =~= w@.subrange(i + 1, n as int));
        i = i + 1;
    }
    if i < n {
        assert(w@.subrange(i as int, n as int)[0] == w@[i as int]);
    }
    assert(trim_front(w@) == w@.subrange(i as int, n as int));
    let mut j: usize = n;
    while j > i && !keeps_exec(w[j - 1])
        invariant
            i <= j <= n,
            n == w@.len(),
            trim_back(w@.subrange(i as int, n as int)) == trim_back(
                w@.subrange(i as int, j as int),
            ),
        decreases j - i,
    {
        assert(w@.subrange(i as int, j as int).drop_last() =~= w@.subrange(i as int, j - 1));
        j = j - 1;
    }
    if j > i {
        assert(w@.subrange(i as int, j as int).last() == w@[j - 1]);
    }
    assert(trim_back(w@.subrange(i as int, j as int)) == w@.subrange(i as int, j as int));
    let mut out: Vec<char> = Vec::new();
    let mut k: usize = i;
    while k < j
        invariant
            i <= k <= j <= n,
            n == w@.len(),
            out@ == w@.subrange(i as int, k as int),
        decreases j - k,
    {
        out.push(w[k]);
        assert(out@ =~= w@.subrange(i as int, k + 1));
        k = k + 1;
    }
    out
}

fn any_upper(c: &Vec<char>) -> (r: bool)
    ensures
        r == exists|k: int| 0 <= k < c@.len() && upper_of(c@[k]),
{
    let mut k: usize = 0;
    while k < c.len()
        invariant
            k <= c@.len(),
            forall|m: int| 0 <= m < k ==> !upper_of(c@[m]),
        decreases c@.len() - k,
    {
        if is_upper(c[k]) {
            return true;
        }
        k = k + 1;
    }
    false
}

fn is_symbol_like(c: &Vec<char>) -> (r: bool)
    ensures
        r == symbol_like(c@),
{
    longer_than_two_bytes(c) && (contains_char(c, '_') || any_upper(c))
}

fn is_file_like(w: &Vec<char>) -> (r: bool)
    ensures
        r == file_like(w@),
{
    contains_char(w, '.') && (ends_with_seq(w, &chars_of(".ts")) || ends_with_seq(
        w,
        &chars_of(".tsx"),
    ) || ends_with_seq(w, &chars_of(".js")) || ends_with_seq(w, &chars_of(".jsx"))
        || ends_with_seq(w, &chars_of(".rs")) || ends_with_seq(w, &chars_of(".py"))
        || ends_with_seq(w, &chars_of(".go")))
}

/// Builds the context for questions within a token budget.
pub struct RAGPipeline {
    max_context_tokens: usize,
}

impl RAGPipeline {
    pub closed spec fn budget(&self) -> nat {
        self.max_context_tokens as nat
    }

    pub fn new(max_context_tokens: usize) -> (r: RAGPipeline)
        ensures
            r.budget() == max_context_tokens,
    {
        RAGPipeline { max_context_tokens }
    }

    pub fn max_context_tokens(&self) -> (r: usize)
        ensures
            r == self.budget(),
    {
        self.max_context_tokens
    }

    /// The intent of `query`, decided by keywords of its lower-case form.
    pub fn analyze_intent(&self, query: &str) -> (r: QueryIntent)
        ensures
            r@ == intent_of(query@),
    {
        let lowered = lowercase(query);
        self.intent_from_lowered(query, lowered.as_str())
    }

    /// The intent of `query` whose lower-case form is `lowered`.
    pub fn intent_from_lowered(&self, query: &str, lowered: &str) -> (r: QueryIntent)
        ensures
            r@ == intent_with(query@, lowered@),
    {
        let l = chars_of(lowered);
        if contains_seq(&l, &chars_of("refactor")) {
            QueryIntent::Refactor { symbol: self.extract_symbol_from_query(query) }
        } else if contains_seq(&l, &chars_of("explain")) || contains_seq(&l, &chars_of("what is"))
            || contains_seq(&l, &chars_of("what does")) {
            QueryIntent::Explain { symbol: self.extract_symbol_from_query(query) }
        } else if contains_seq(&l, &chars_of("debug")) || contains_seq(&l, &chars_of("fix"))
            || contains_seq(&l, &chars_of("error")) {
            QueryIntent::Debug { file: self.extract_file_from_query(query) }
        } else if contains_seq(&l, &chars_of("test")) || contains_seq(&l, &chars_of("unit test")) {
            QueryIntent::Test { symbol: self.extract_symbol_from_query(query) }
        } else {
            QueryIntent::General
        }
    }

    /// The first word of `query`, cleaned of end punctuation, that looks like an
    /// identifier; empty if there is none.
    pub fn extract_symbol_from_query(&self, query: &str) -> (r: String)
        ensures
            r@ == symbol_of(query@),
    {
        let words = split_words(&chars_of(query));
        let ghost ws = word_views(words@);
        let mut i: usize = 0;
        assert(ws.subrange(0, ws.len() as int) =~= ws);
        while i < words.len()
            invariant
                i <= words@.len(),
                ws == word_views(words@),
                ws == words_of(query@),
                first_symbol(ws) == first_symbol(ws.subrange(i as int, ws.len() as int)),
            decreases words@.len() - i,
        {
            assert(ws.subrange(i as int, ws.len() as int)[0] == ws[i as int]);
            let c = clean_word(&words[i]);
            if is_symbol_like(&c) {
                return string_of(&c);
            }
            assert(ws.subrange(i as int, ws.len() as int).drop_first() =~= ws.subrange(
                i + 1,
                ws.len() as int,
            ));
            i = i + 1;
        }
        assert(ws.subrange(i as int, ws.len() as int) =~= Seq::<Seq<char>>::empty());
        string_of(&Vec::new())
    }

    /// The first word of `query` that names a source file by its extension; empty if
    /// there is none.
    pub fn extract_file_from_query(&self, query: &str) -> (r: String)
        ensures
            r@ == file_of(query@),
    {
        let words = split_words(&chars_of(query));
        let ghost ws = word_views(words@);
        let mut i: usize = 0;
        assert(ws.subrange(0, ws.len() as int) =~= ws);
        while i < words.len()
            invariant
                i <= words@.len(),
                ws == word_views(words@),
                ws == words_of(query@),
                first_file(ws) == first_file(ws.subrange(i as int, ws.len() as int)),
            decreases words@.len() - i,
        {
            assert(ws.subrange(i as int, ws.len() as int)[0] == ws[i as int]);
            if is_file_like(&words[i]) {
                return string_of(&words[i]);
            }
            assert(ws.subrange(i as int, ws.len() as int).drop_first() =~= ws.subrange(
                i + 1,
                ws.len() as int,
            ));
            i = i + 1;
        }
        assert(ws.subrange(i as int, ws.len() as int) =~= Seq::<Seq<char>>::empty());
        string_of(&Vec::new())
    }

    /// A rough token count: one token for every four bytes of UTF-8.
    pub fn estimate_tokens(text: &str) -> (r: usize)
        ensures
            r == (text.spec_bytes().len() as usize) / 4,
    {
        text.len() / 4
    }
}

} // verus!
