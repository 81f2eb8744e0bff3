//! A small combinator framework for lexing character streams: a lexer state
//! threaded through primitive character/string matchers and the combinators
//! `or`, `attempt`, `map`, `many` and `between`.
//!
//! Every lexer's behaviour is pinned by its `run_rel` relation: `run` may
//! return exactly the results that the relation admits. For the concrete
//! character and string lexers the relation determines the result outright;
//! for combinators over arbitrary value types it is stated over the
//! constituents' relations and the possible outcomes of cloning.

use std::marker::PhantomData;
use std::rc::Rc;
use vstd::prelude::*;

verus! {

/// The character stream a lexer walks.
pub type SymbolStream = Vec<char>;

/// A lexer's state: the value built so far, the position of and the element
/// at the reading head, and the shared stream.
#[derive(Clone, Debug, PartialEq, Eq)]
pub struct LexerState<T>
where
    T: Clone,
{
    pub value: Option<T>,
    pub position: Option<usize>,
    pub element: Option<char>,
    pub stream: Rc<SymbolStream>,
}

/// A lexing failure: where it happened, and the whole stream as text.
#[derive(Debug, PartialEq, Eq)]
pub struct LexerError {
    pub position: Option<usize>,
    pub string: String,
}

/// The result of running a lexer.
pub type LexerResult<O> = Result<LexerState<O>, LexerError>;

/// One value is a possible clone of the other, position by position.
pub open spec fn opt_cloned<T: Clone>(a: Option<T>, b: Option<T>) -> bool {
    match a {
        None => b is None,
        Some(x) => b matches Some(y) && cloned::<T>(x, y),
    }
}

/// One state is a possible clone of another: equal except that its value is
/// a possible clone.
pub open spec fn state_cloned<T: Clone>(a: LexerState<T>, b: LexerState<T>) -> bool {
    &&& b.position == a.position
    &&& b.element == a.element
    &&& b.stream == a.stream
    &&& opt_cloned(a.value, b.value)
}

/// A state whose head can still step forward without overflowing.
pub open spec fn state_wf<T: Clone>(st: LexerState<T>) -> bool {
    match st.position {
        Some(p) => p < usize::MAX,
        None => true,
    }
}

/// Where the head moves on the next step: position 0 from the start, one
/// past the current position otherwise.
pub open spec fn next_pos<T: Clone>(st: LexerState<T>) -> int {
    match st.position {
        Some(p) => p + 1,
        None => 0,
    }
}

/// How much of the stream lies behind the head: nothing before the first
/// step, one more than the position after it.
pub open spec fn pos_measure<T: Clone>(st: LexerState<T>) -> int {
    match st.position {
        Some(p) => p + 1,
        None => 0,
    }
}

/// The text built so far: the value's characters, or nothing.
pub open spec fn prev_text(st: LexerState<String>) -> Seq<char> {
    match st.value {
        Some(v) => v@,
        None => Seq::<char>::empty(),
    }
}

/// Relies on `Rc::clone`: the returned handle shares the allocation, so it
/// carries the very same value.
#[verifier::external_body]
fn rc_clone<T>(rc: &Rc<T>) -> (r: Rc<T>)
    ensures
        r == *rc,
{
    rc.clone()
}

/// Relies on `String::push`: appends the given character to the end of the
/// string.
#[verifier::external_body]
fn push_char(s: &mut String, c: char)
    ensures
        final(s)@ == old(s)@.push(c),
{
    s.push(c)
}

/// The characters of a vector, as text.
fn chars_string(v: &Vec<char>) -> (s: String)
    ensures
        s@ == v@,
{
    let mut s = String::new();
    let mut i: usize = 0;
    while i < v.len()
        invariant
            0 <= i <= v@.len(),
            s@ =~= v@.subrange(0, i as int),
        decreases v@.len() - i,
    {
        push_char(&mut s, v[i]);
        i += 1;
    }
    proof {
        assert(s@ =~= v@);
    }
    s
}

/// The failure that names a state's position and its whole stream.
fn error_from<T: Clone>(st: &LexerState<T>) -> (e: LexerError)
    ensures
        e.position == st.position,
        e.string@ == st.stream@,
{
    LexerError { position: st.position, string: chars_string(&st.stream) }
}

impl<T> LexerState<T> where T: Clone {
    /// Steps the head one element forward: to position 0 from the start,
    /// else one past the current position; the element is what the stream
    /// holds there, the value a clone of the current one.
    pub fn next(&self) -> (r: LexerState<T>)
        requires
            state_wf(*self),
        ensures
            r.position == Some((next_pos(*self)) as usize),
            r.element == (if next_pos(*self) < self.stream@.len() {
                Some(self.stream@[next_pos(*self)])
            } else {
                None::<char>
            }),
            r.stream == self.stream,
            opt_cloned(self.value, r.value),
    {
        let position: usize = match self.position {
            Some(p) => p + 1,
            None => 0,
        };
        let element: Option<char> = if position < self.stream.len() {
            Some(self.stream[position])
        } else {
            None
        };
        LexerState {
            element,
            position: Some(position),
            stream: rc_clone(&self.stream),
            value: self.value.clone(),
        }
    }

    /// The same head over the same stream, with no value.
    fn drop_value<T2: Clone>(&self) -> (r: LexerState<T2>)
        ensures
            r.position == self.position,
            r.element == self.element,
            r.stream == self.stream,
            r.value is None,
    {
        LexerState {
            element: self.element,
            position: self.position,
            stream: rc_clone(&self.stream),
            value: None,
        }
    }
}

impl LexerState<String> {
    /// Appends one character to the value, beginning one if there is none.
    fn add_character(&self, character: char) -> (r: LexerState<String>)
        ensures
            r.position == self.position,
            r.element == self.element,
            r.stream == self.stream,
            r.value matches Some(w) && w@ == prev_text(*self).push(character),
    {
        let mut val: String = match &self.value {
            Some(v) => v.clone(),
            None => String::new(),
        };
        push_char(&mut val, character);
        LexerState {
            element: self.element,
            position: self.position,
            stream: rc_clone(&self.stream),
            value: Some(val),
        }
    }
}

impl<'a> From<&'a str> for LexerState<String> {
    /// A state at the start of the given text: head before the first
    /// element, value empty.
    ///
    /// Verus cannot denote an exact `String` value in specification code,
    /// so this construction carries no `from_spec` definition; the lexers'
    /// relations describe every state they produce from one.
    fn from(string: &'a str) -> (r: LexerState<String>) {
        LexerState {
            element: None,
            position: None,
            value: Some(String::new()),
            stream: Rc::new(crate::numeral::text_chars(string)),
        }
    }
}

impl<'a> vstd::std_specs::convert::FromSpecImpl<&'a str> for LexerState<String> {
    open spec fn obeys_from_spec() -> bool {
        false
    }

    open spec fn from_spec(string: &'a str) -> LexerState<String> {
        arbitrary()
    }
}

/// A lexer: anything that can be run on a state, producing the new state or
/// a failure — exactly as its relation `run_rel` admits.
pub trait Lexer<I: Clone, O: Clone> {
    /// The lexer itself is sound to run.
    spec fn wf(&self) -> bool;

    /// Which results `run` may produce from which states.
    spec fn run_rel(&self, pre: LexerState<I>, r: LexerResult<O>) -> bool;

    /// Runs the lexer on a state.
    fn run(&self, state: &LexerState<I>) -> (r: LexerResult<O>)
        requires
            self.wf(),
            state_wf(*state),
        ensures
            self.run_rel(*state, r);
}

// character //////////////////////////////////////////////////////////////////

/// Matches exactly one given character at the head's next position.
pub struct CharLexer {
    pub character: char,
}

impl CharLexer {
    fn new(character: char) -> (r: Self)
        ensures
            r.character == character,
    {
        CharLexer { character }
    }
}

impl Lexer<String, String> for CharLexer {
    open spec fn wf(&self) -> bool {
        true
    }

    /// Stepping onto the expected character succeeds and appends it to the
    /// value; anything else fails at the stepped-to position.
    open spec fn run_rel(&self, pre: LexerState<String>, r: LexerResult<String>) -> bool {
        let p = next_pos(pre);
        if p < pre.stream@.len() && pre.stream@[p] == self.character {
            r matches Ok(st) && {
                &&& st.position matches Some(q) && q == p
                &&& st.element == Some(self.character)
                &&& st.stream == pre.stream
                &&& st.value matches Some(w) && w@ == prev_text(pre).push(self.character)
            }
        } else {
            r matches Err(e) && e.position matches Some(q) && q == p && e.string@ == pre.stream@
        }
    }

    fn run(&self, state: &LexerState<String>) -> (r: LexerResult<String>) {
        let next_state = state.next();
        match next_state.element {
            Some(c) if c == self.character => Ok(next_state.add_character(c)),
            _ => Err(error_from(&next_state)),
        }
    }
}

/// A lexer for the one given character.
pub fn character(c: char) -> (r: CharLexer)
    ensures
        r.character == c,
{
    CharLexer::new(c)
}

// string /////////////////////////////////////////////////////////////////////

/// Matches a fixed string, one character lexer per character.
pub struct StringLexer {
    pub char_lexers: Vec<CharLexer>,
}

/// The text a string lexer matches.
pub open spec fn lexer_text(l: StringLexer) -> Seq<char> {
    l.char_lexers@.map_values(|cl: CharLexer| cl.character)
}

/// The count of leading characters of `cs` that the stream holds starting
/// at `from` (the offset of the first mismatch, or `cs.len()`).
pub open spec fn match_len(stream: Seq<char>, from: int, cs: Seq<char>) -> int
    decreases cs.len(),
{
    if cs.len() == 0 {
        0
    } else if from < stream.len() && stream[from] == cs[0] {
        1 + match_len(stream, from + 1, cs.subrange(1, cs.len() as int))
    } else {
        0
    }
}

impl StringLexer {
    fn new(string: &str) -> (r: Self)
        ensures
            lexer_text(r) == string@,
    {
        let chars = crate::numeral::text_chars(string);
        let mut char_lexers: Vec<CharLexer> = Vec::new();
        let mut i: usize = 0;
        while i < chars.len()
            invariant
                0 <= i <= chars@.len(),
                chars@ == string@,
                char_lexers@.len() == i,
                forall|k: int| 0 <= k < i ==> char_lexers@[k].character == chars@[k],
            decreases chars@.len() - i,
        {
            char_lexers.push(CharLexer::new(chars[i]));
            i += 1;
        }
        let r = StringLexer { char_lexers };
        proof {
            assert(lexer_text(r) =~= string@);
        }
        r
    }
}

impl Lexer<String, String> for StringLexer {
    open spec fn wf(&self) -> bool {
        true
    }

    /// Succeeds exactly where the stream continues with the whole expected
    /// text (an empty text always does): the head ends on its last
    /// character (or stays put for the empty text) and the text is appended
    /// to the value. Otherwise it fails at the position stepped to by the
    /// first character that did not match.
    open spec fn run_rel(&self, pre: LexerState<String>, r: LexerResult<String>) -> bool {
        let cs = lexer_text(*self);
        let pm = pos_measure(pre);
        let n = cs.len();
        if n == 0 {
            r matches Ok(st) && {
                &&& st.position == pre.position
                &&& st.element == pre.element
                &&& st.stream == pre.stream
                &&& opt_cloned(pre.value, st.value)
            }
        } else if pm + n <= pre.stream@.len() && (forall|k: int|
            #![trigger cs[k]]
            0 <= k < n ==> pre.stream@[pm + k] == cs[k]) {
            r matches Ok(st) && {
                &&& st.position matches Some(q) && q == pm + n - 1
                &&& st.element == Some(cs.last())
                &&& st.stream == pre.stream
                &&& st.value matches Some(w) && w@ == prev_text(pre) + cs
            }
        } else {
            r matches Err(e) && e.string@ == pre.stream@ && (e.position matches Some(q) && q == pm
                + match_len(pre.stream@, pm, cs))
        }
    }

    fn run(&self, state: &LexerState<String>) -> (r: LexerResult<String>) {
        let ghost cs = lexer_text(*self);
        let ghost pm = pos_measure(*state);
        let mut cur: LexerState<String> = LexerState {
            element: state.element,
            position: state.position,
            stream: rc_clone(&state.stream),
            value: state.value.clone(),
        };
        let n = self.char_lexers.len();
        let slen = state.stream.len();
        let mut i: usize = 0;
        proof {
            assert(cs.subrange(0, n as int) =~= cs);
        }
        while i < n
            invariant
                0 <= i <= n,
                n == cs.len(),
                cs == lexer_text(*self),
                pm == pos_measure(*state),
                pm >= 0,
                slen as int == state.stream@.len(),
                forall|k: int|
                    #![trigger cs[k]]
                    0 <= k < i ==> pm + k < state.stream@.len() && state.stream@[pm + k] == cs[k],
                match_len(state.stream@, pm, cs) == i + match_len(
                    state.stream@,
                    pm + i,
                    cs.subrange(i as int, n as int),
                ),
                cur.stream == state.stream,
                state_wf(cur),
                i == 0 ==> cur.position == state.position && cur.element == state.element
                    && opt_cloned(state.value, cur.value),
                i > 0 ==> (cur.position matches Some(q) && q == pm + i - 1) && cur.element == Some(
                    cs[i - 1],
                ) && (cur.value matches Some(w) && w@ == prev_text(*state) + cs.subrange(
                    0,
                    i as int,
                )),
            decreases n - i,
        {
            let lexer = &self.char_lexers[i];
            assert(lexer.character == cs[i as int]);
            proof {
                assert(next_pos(cur) == pm + i);
            }
            match lexer.run(&cur) {
                Ok(st) => {
                    proof {
                        let csi = cs.subrange(i as int, n as int);
                        assert(csi[0] == cs[i as int]);
                        assert(csi.subrange(1, csi.len() as int) =~= cs.subrange(
                            i + 1,
                            n as int,
                        ));
                        assert(match_len(state.stream@, pm + i, csi) == 1 + match_len(
                            state.stream@,
                            pm + i + 1,
                            cs.subrange(i + 1, n as int),
                        ));
                        if i == 0 {
                            assert(prev_text(cur) == prev_text(*state));
                            assert(prev_text(*state).push(cs[0]) =~= prev_text(*state)
                                + cs.subrange(0, 1));
                        } else {
                            assert((prev_text(*state) + cs.subrange(0, i as int)).push(
                                cs[i as int],
                            ) =~= prev_text(*state) + cs.subrange(0, i + 1));
                        }
                    }
                    cur = st;
                },
                Err(e) => {
                    proof {
                        let csi = cs.subrange(i as int, n as int);
                        assert(csi[0] == cs[i as int]);
                        assert(match_len(state.stream@, pm + i, csi) == 0);
                    }
                    return Err(e);
                },
            }
            i += 1;
        }
        proof {
            if n > 0 {
                assert(cs.subrange(0, n as int) =~= cs);
            }
        }
        Ok(cur)
    }
}

/// A lexer for the given text.
pub fn string<'a>(text: &'a str) -> (r: StringLexer)
    ensures
        lexer_text(r) == text@,
{
    StringLexer::new(text)
}


// or /////////////////////////////////////////////////////////////////////////

/// Runs one lexer, and where it fails, the other, on the same state.
pub struct OrLexer<I: Clone, O: Clone, A: Lexer<I, O>, B: Lexer<I, O>> {
    pub option_a: A,
    pub option_b: B,
    pub phantom_input: PhantomData<I>,
    pub phantom_output: PhantomData<O>,
}

impl<I: Clone, O: Clone, A: Lexer<I, O>, B: Lexer<I, O>> OrLexer<I, O, A, B> {
    fn new(option_a: A, option_b: B) -> (r: Self)
        ensures
            r.option_a == option_a,
            r.option_b == option_b,
    {
        OrLexer {
            option_a,
            option_b,
            phantom_input: PhantomData,
            phantom_output: PhantomData,
        }
    }
}

impl<I: Clone, O: Clone, A: Lexer<I, O>, B: Lexer<I, O>> Lexer<I, O> for OrLexer<I, O, A, B> {
    open spec fn wf(&self) -> bool {
        self.option_a.wf() && self.option_b.wf()
    }

    /// A success the first alternative admits; or, where the first can
    /// fail, whatever the second admits.
    open spec fn run_rel(&self, pre: LexerState<I>, r: LexerResult<O>) -> bool {
        ||| (r is Ok && self.option_a.run_rel(pre, r))
        ||| ((exists|e: LexerError| self.option_a.run_rel(pre, Err(e)))
            && self.option_b.run_rel(pre, r))
    }

    fn run(&self, state: &LexerState<I>) -> (r: LexerResult<O>) {
        match self.option_a.run(state) {
            Ok(st) => Ok(st),
            Err(e) => {
                proof {
                    assert(exists|e2: LexerError| self.option_a.run_rel(*state, Err(e2))) by {
                        assert(self.option_a.run_rel(*state, Err(e)));
                    }
                }
                self.option_b.run(state)
            },
        }
    }
}

/// The lexer that tries `a` and falls back to `b`.
pub fn or<I: Clone, O: Clone, A: Lexer<I, O>, B: Lexer<I, O>>(a: A, b: B) -> (r: OrLexer<
    I,
    O,
    A,
    B,
>)
    ensures
        r.option_a == a,
        r.option_b == b,
{
    OrLexer::new(a, b)
}

// attempt ////////////////////////////////////////////////////////////////////

/// Runs a lexer, recovering the unchanged state where it fails.
pub struct TryLexer<I: Clone, L: Lexer<I, I>> {
    pub lexer: L,
    pub phantom_input: PhantomData<I>,
}

impl<I: Clone, L: Lexer<I, I>> TryLexer<I, L> {
    fn new(lexer: L) -> (r: Self)
        ensures
            r.lexer == lexer,
    {
        TryLexer { lexer, phantom_input: PhantomData }
    }
}

impl<I: Clone, L: Lexer<I, I>> Lexer<I, I> for TryLexer<I, L> {
    open spec fn wf(&self) -> bool {
        self.lexer.wf()
    }

    /// A success the lexer admits; or, where it can fail, a clone of the
    /// state it was started on.
    open spec fn run_rel(&self, pre: LexerState<I>, r: LexerResult<I>) -> bool {
        ||| (r is Ok && self.lexer.run_rel(pre, r))
        ||| ((exists|e: LexerError| self.lexer.run_rel(pre, Err(e))) && (r matches Ok(st)
            && state_cloned(pre, st)))
    }

    fn run(&self, state: &LexerState<I>) -> (r: LexerResult<I>) {
        match self.lexer.run(state) {
            Err(e) => {
                proof {
                    assert(exists|e2: LexerError| self.lexer.run_rel(*state, Err(e2))) by {
                        assert(self.lexer.run_rel(*state, Err(e)));
                    }
                }
                Ok(LexerState {
                    value: state.value.clone(),
                    position: state.position,
                    element: state.element,
                    stream: rc_clone(&state.stream),
                })
            },
            result => result,
        }
    }
}

/// The lexer that attempts `lexer` without consuming anything on failure.
/// (`try` being reserved in current Rust, the function is named `attempt`.)
pub fn attempt<I: Clone, L: Lexer<I, I>>(lexer: L) -> (r: TryLexer<I, L>)
    ensures
        r.lexer == lexer,
{
    TryLexer::new(lexer)
}

// map ////////////////////////////////////////////////////////////////////////

/// Runs a lexer and passes its value through a function.
#[verifier::reject_recursive_types(O)]
pub struct MapLexer<I: Clone, O: Clone, F: Fn(I) -> O, L: Lexer<I, I>> {
    pub function: F,
    pub lexer: L,
    pub phantom_input: PhantomData<I>,
    pub phantom_output: PhantomData<O>,
}

impl<I: Clone, O: Clone, F: Fn(I) -> O, L: Lexer<I, I>> MapLexer<I, O, F, L> {
    fn new(lexer: L, f: F) -> (r: MapLexer<I, O, F, L>)
        ensures
            r.lexer == lexer,
            r.function == f,
    {
        MapLexer {
            function: f,
            lexer,
            phantom_input: PhantomData,
            phantom_output: PhantomData,
        }
    }
}

impl<I: Clone, O: Clone, F: Fn(I) -> O, L: Lexer<I, I>> Lexer<I, O> for MapLexer<I, O, F, L> {
    open spec fn wf(&self) -> bool {
        self.lexer.wf() && (forall|v: I| #[trigger] call_requires(self.function, (v,)))
    }

    /// A failure the lexer admits; or a success it admits, its value sent
    /// through the function.
    open spec fn run_rel(&self, pre: LexerState<I>, r: LexerResult<O>) -> bool {
        match r {
            Err(e) => self.lexer.run_rel(pre, Err(e)),
            Ok(out) => exists|st: LexerState<I>|
                {
                    &&& #[trigger] self.lexer.run_rel(pre, Ok(st))
                    &&& out.position == st.position
                    &&& out.element == st.element
                    &&& out.stream == st.stream
                    &&& match st.value {
                        None => out.value is None,
                        Some(v) => out.value matches Some(w) && call_ensures(
                            self.function,
                            (v,),
                            w,
                        ),
                    }
                },
        }
    }

    fn run(&self, state: &LexerState<I>) -> (r: LexerResult<O>) {
        match self.lexer.run(state) {
            Err(e) => Err(e),
            Ok(st) => {
                let ghost gst = st;
                let LexerState { value, position, element, stream } = st;
                let new_value: Option<O> = match value {
                    Some(v) => Some((self.function)(v)),
                    None => None,
                };
                let out = LexerState { element, value: new_value, position, stream };
                proof {
                    assert(self.lexer.run_rel(*state, Ok(gst)));
                }
                Ok(out)
            },
        }
    }
}

/// The lexer that maps `f` over the value `lexer` builds.
pub fn map<I, O, F, L>(lexer: L, f: F) -> (r: MapLexer<I, O, F, L>) where
    I: Clone,
    O: Clone,
    F: Fn(I) -> O,
    L: Lexer<I, I>,

    ensures
        r.lexer == lexer,
        r.function == f,
{
    MapLexer::new(lexer, f)
}

// between ////////////////////////////////////////////////////////////////////

/// The same head over the same stream, with the value gone — what a
/// combinator hands to the next stage.
pub open spec fn stripped<T: Clone, T2: Clone>(s: LexerState<T>) -> LexerState<T2> {
    LexerState { value: None, position: s.position, element: s.element, stream: s.stream }
}

/// Every state the lexer can succeed with can step further without
/// overflowing.
pub open spec fn produces_wf<I: Clone, O: Clone, L: Lexer<I, O>>(l: L) -> bool {
    forall|pre: LexerState<I>, st: LexerState<O>|
        #[trigger] l.run_rel(pre, Ok(st)) ==> state_wf(st)
}

/// Runs an opening, a body and a closing lexer in turn, keeping the body's
/// value.
pub struct BetweenLexer<I, O, Open, Close, Body> where
    I: Clone,
    O: Clone,
    Open: Lexer<I, I>,
    Close: Lexer<I, I>,
    Body: Lexer<I, O>,
 {
    pub open_lexer: Open,
    pub close_lexer: Close,
    pub body_lexer: Body,
    pub phantom_input: PhantomData<I>,
    pub phantom_output: PhantomData<O>,
}

impl<I, O, Open, Close, Body> BetweenLexer<I, O, Open, Close, Body> where
    I: Clone,
    O: Clone,
    Open: Lexer<I, I>,
    Close: Lexer<I, I>,
    Body: Lexer<I, O>,
 {
    fn new(open: Open, close: Close, body: Body) -> (r: BetweenLexer<I, O, Open, Close, Body>)
        ensures
            r.open_lexer == open,
            r.close_lexer == close,
            r.body_lexer == body,
    {
        BetweenLexer {
            open_lexer: open,
            close_lexer: close,
            body_lexer: body,
            phantom_input: PhantomData,
            phantom_output: PhantomData,
        }
    }
}

/// The lexer that runs `open`, then `body`, then `close`, and keeps the
/// body's value.
pub fn between<I, O, Open, Close, Body>(open: Open, close: Close, body: Body) -> (r: BetweenLexer<
    I,
    O,
    Open,
    Close,
    Body,
>) where
    I: Clone,
    O: Clone,
    Open: Lexer<I, I>,
    Close: Lexer<I, I>,
    Body: Lexer<I, O>,

    ensures
        r.open_lexer == open,
        r.close_lexer == close,
        r.body_lexer == body,
{
    BetweenLexer::new(open, close, body)
}

impl<I, O, Open, Close, Body> Lexer<I, O> for BetweenLexer<I, O, Open, Close, Body> where
    I: Clone,
    O: Clone,
    Open: Lexer<I, I>,
    Close: Lexer<I, I>,
    Body: Lexer<I, O>,
 {
    open spec fn wf(&self) -> bool {
        &&& self.open_lexer.wf()
        &&& self.close_lexer.wf()
        &&& self.body_lexer.wf()
        &&& produces_wf(self.open_lexer)
        &&& produces_wf(self.body_lexer)
    }

    /// The three stages chained: each failure passed out as it is, and on
    /// full success the closing lexer's head with the body's value.
    open spec fn run_rel(&self, pre: LexerState<I>, r: LexerResult<O>) -> bool {
        ||| (exists|e: LexerError| #![auto]
            self.open_lexer.run_rel(pre, Err(e)) && r == Err::<LexerState<O>, LexerError>(e))
        ||| (exists|s1: LexerState<I>|
            {
                &&& #[trigger] self.open_lexer.run_rel(pre, Ok(s1))
                &&& {
                    ||| (r is Err && self.body_lexer.run_rel(stripped(s1), r))
                    ||| (exists|s2: LexerState<O>|
                        {
                            &&& #[trigger] self.body_lexer.run_rel(stripped(s1), Ok(s2))
                            &&& {
                                ||| (exists|e: LexerError| #![auto]
                                    self.close_lexer.run_rel(stripped(s2), Err(e)) && r == Err::<
                                        LexerState<O>,
                                        LexerError,
                                    >(e))
                                ||| (exists|s3: LexerState<I>|
                                    {
                                        &&& #[trigger] self.close_lexer.run_rel(
                                            stripped(s2),
                                            Ok(s3),
                                        )
                                        &&& r matches Ok(out)
                                        &&& out.element == s3.element
                                        &&& out.position == s3.position
                                        &&& out.stream == s3.stream
                                        &&& out.value == s2.value
                                    })
                            }
                        })
                }
            })
    }

    fn run(&self, state: &LexerState<I>) -> (r: LexerResult<O>) {
        match self.open_lexer.run(state) {
            Err(e) => Err(e),
            Ok(s1) => {
                let ghost g1 = s1;
                let body_start: LexerState<I> = s1.drop_value();
                proof {
                    assert(body_start == stripped::<I, I>(g1));
                }
                match self.body_lexer.run(&body_start) {
                    Err(e) => Err(e),
                    Ok(s2) => {
                        let ghost g2 = s2;
                        let close_start: LexerState<I> = s2.drop_value();
                        proof {
                            assert(close_start == stripped::<O, I>(g2));
                        }
                        match self.close_lexer.run(&close_start) {
                            Err(e) => Err(e),
                            Ok(s3) => {
                                let out = LexerState {
                                    element: s3.element,
                                    position: s3.position,
                                    stream: s3.stream,
                                    value: s2.value,
                                };
                                Ok(out)
                            },
                        }
                    },
                }
            },
        }
    }
}


// many //////////////////////////////////////////////////////////////////////

/// Runs a lexer as often as it succeeds, collecting the values it builds.
pub struct ManyLexer<I: Clone, L: Lexer<I, I>> {
    pub lexer: L,
    pub phantom_input: PhantomData<I>,
}

impl<I: Clone, L: Lexer<I, I>> ManyLexer<I, L> {
    fn new(lexer: L) -> (r: Self)
        ensures
            r.lexer == lexer,
    {
        ManyLexer { lexer, phantom_input: PhantomData }
    }
}

/// The state one round of `many` starts from: a clone of the starting
/// state first, then each previous round's result with its value taken.
pub open spec fn many_prev<I: Clone>(s0: LexerState<I>, ts: Seq<LexerState<I>>, i: int) -> LexerState<I> {
    if i == 0 {
        s0
    } else {
        stripped(ts[i - 1])
    }
}

/// The values the rounds produced, in order, skipping rounds that produced
/// none.
pub open spec fn collected_values<I: Clone>(ts: Seq<LexerState<I>>) -> Seq<I>
    decreases ts.len(),
{
    if ts.len() == 0 {
        Seq::<I>::empty()
    } else {
        collected_values(ts.drop_last()) + (match ts.last().value {
            Some(v) => seq![v],
            None => Seq::<I>::empty(),
        })
    }
}

/// Each success of the lexer moves the head strictly forward, within the
/// stream it was given, and leaves the stream itself alone — what `many`
/// needs of its lexer in order to come to an end.
pub open spec fn makes_progress<I: Clone, L: Lexer<I, I>>(l: L) -> bool {
    forall|pre: LexerState<I>, st: LexerState<I>|
        #[trigger] l.run_rel(pre, Ok(st)) ==> st.stream == pre.stream && pos_measure(st)
            > pos_measure(pre) && pos_measure(st) <= st.stream@.len()
}

/// What is left of the stream before a round of `many`, padded so that it
/// still shrinks on the round that ends the loop.
pub open spec fn many_measure<I: Clone>(st: LexerState<I>, len: int, done: bool) -> int {
    (if pos_measure(st) <= len {
        len - pos_measure(st) + 1
    } else {
        0int
    }) + (if done {
        0int
    } else {
        1int
    })
}

impl<I: Clone, L: Lexer<I, I>> Lexer<I, Vec<I>> for ManyLexer<I, L> {
    open spec fn wf(&self) -> bool {
        self.lexer.wf() && makes_progress(self.lexer)
    }

    /// Always a success: there is a run of rounds — a clone of the start
    /// first, each later round fed the previous result without its value —
    /// each succeeding as the lexer admits, with one more failure the lexer
    /// admits at the end. The result carries all the values the rounds
    /// built, under the last round's head (the starting head if there was
    /// no round).
    open spec fn run_rel(&self, pre: LexerState<I>, r: LexerResult<Vec<I>>) -> bool {
        r matches Ok(out) && exists|s0: LexerState<I>, ts: Seq<LexerState<I>>, e: LexerError|
            {
                &&& state_cloned(pre, s0)
                &&& forall|i: int|
                    0 <= i < ts.len() ==> self.lexer.run_rel(
                        many_prev(s0, ts, i),
                        Ok(#[trigger] ts[i]),
                    )
                &&& #[trigger] self.lexer.run_rel(many_prev(s0, ts, ts.len() as int), Err(e))
                &&& out.stream == pre.stream
                &&& out.position == (if ts.len() == 0 {
                    pre.position
                } else {
                    ts.last().position
                })
                &&& out.element == (if ts.len() == 0 {
                    pre.element
                } else {
                    ts.last().element
                })
                &&& out.value matches Some(vs) && vs@ == collected_values(ts)
            }
    }

    fn run(&self, state: &LexerState<I>) -> (r: LexerResult<Vec<I>>) {
        let mut next_state: LexerState<I> = LexerState {
            value: state.value.clone(),
            position: state.position,
            element: state.element,
            stream: rc_clone(&state.stream),
        };
        let ghost s0 = next_state;
        let ghost mut ts: Seq<LexerState<I>> = Seq::<LexerState<I>>::empty();
        let ghost mut gerr: LexerError = arbitrary();
        let mut vals: Vec<I> = Vec::new();
        let mut cur_position = state.position;
        let mut cur_element = state.element;
        let mut done = false;
        while !done
            invariant
                self.lexer.wf(),
                makes_progress(self.lexer),
                state_cloned(*state, s0),
                state_wf(*state),
                next_state == many_prev(s0, ts, ts.len() as int),
                forall|i: int|
                    0 <= i < ts.len() ==> self.lexer.run_rel(
                        many_prev(s0, ts, i),
                        Ok(#[trigger] ts[i]),
                    ),
                vals@ == collected_values(ts),
                cur_position == (if ts.len() == 0 {
                    state.position
                } else {
                    ts.last().position
                }),
                cur_element == (if ts.len() == 0 {
                    state.element
                } else {
                    ts.last().element
                }),
                next_state.stream == state.stream,
                state_wf(next_state),
                ts.len() > 0 ==> pos_measure(next_state) <= state.stream@.len(),
                done ==> self.lexer.run_rel(many_prev(s0, ts, ts.len() as int), Err(gerr)),
            decreases many_measure(next_state, state.stream@.len() as int, done),
        {
            match self.lexer.run(&next_state) {
                Err(e) => {
                    proof {
                        gerr = e;
                    }
                    done = true;
                },
                Ok(new_state) => {
                    let ghost g = new_state;
                    let ghost old_ts = ts;
                    let LexerState { value, position, element, stream } = new_state;
                    cur_position = position;
                    cur_element = element;
                    if let Some(v) = value {
                        vals.push(v);
                    }
                    next_state = LexerState { value: None, position, element, stream };
                    proof {
                        ts = ts.push(g);
                        assert(ts.drop_last() =~= old_ts);
                        assert(ts.last() == g);
                        assert(next_state == stripped::<I, I>(g));
                        assert(forall|i: int|
                            0 <= i < old_ts.len() ==> many_prev(s0, ts, i) == many_prev(
                                s0,
                                old_ts,
                                i,
                            ) && self.lexer.run_rel(many_prev(s0, ts, i), Ok(#[trigger] ts[i])));
                        assert(many_prev(s0, ts, old_ts.len() as int) == many_prev(
                            s0,
                            old_ts,
                            old_ts.len() as int,
                        ));
                        assert(self.lexer.run_rel(many_prev(s0, ts, old_ts.len() as int), Ok(g)));
                        match g.value {
                            Some(gv) => {
                                assert(collected_values(ts) =~= collected_values(old_ts)
                                    + seq![gv]);
                            },
                            None => {
                                assert(collected_values(ts) =~= collected_values(old_ts));
                            },
                        }
                        // the lexer moved the head strictly forward, within
                        // the stream, so its length bounds the new position
                        assert(pos_measure(g) <= state.stream@.len());
                        assert(state_wf(next_state)) by {
                            match next_state.position {
                                Some(p) => {
                                    assert(p + 1 <= state.stream@.len());
                                    assert(state.stream@.len() <= usize::MAX) by {
                                        vstd::std_specs::vec::axiom_spec_len(&*state.stream);
                                    }
                                },
                                None => {},
                            }
                        }
                    }
                },
            }
        }
        let out: LexerState<Vec<I>> = LexerState {
            value: Some(vals),
            position: cur_position,
            element: cur_element,
            stream: rc_clone(&state.stream),
        };
        proof {
            assert(self.run_rel(
                *state,
                Ok::<LexerState<Vec<I>>, LexerError>(out),
            )) by {
                assert(state_cloned(*state, s0) && self.lexer.run_rel(
                    many_prev(s0, ts, ts.len() as int),
                    Err(gerr),
                ));
            }
        }
        Ok(out)
    }
}

/// The lexer that repeats `lexer` as long as it matches, collecting the
/// values.
pub fn many<I: Clone, L: Lexer<I, I>>(lexer: L) -> (r: ManyLexer<I, L>)
    ensures
        r.lexer == lexer,
{
    ManyLexer::new(lexer)
}

} // verus!
