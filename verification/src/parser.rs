//! The equation-language parser.
//!
//! The input is the list of source lines; the output is a `Content`:
//! the chip, the signature bytes, the pin-name table and the equation
//! list, with every pin reference resolved to its number and
//! effective polarity.  Checks on the special names (`VCC`, `GND`,
//! `NC`, and `AR`/`SP` on the GAL22V10) happen here; everything else
//! is left to the later stages.

use vstd::prelude::*;

use crate::chips::Chip;
use crate::errors::{Error, ErrorCode, LineNum, PowerName, SpecialProductTerm};
use crate::gal::Pin;

verus! {

/// What the parser hands to the rest of the pipeline.
pub struct Content {
    pub chip: Chip,
    pub sig: Vec<u8>,
    pub pins: Vec<String>,
    pub eqns: Vec<Equation>,
}

/// One equation: `lhs = rhs`, with `is_or[i]` true when pin `i` of
/// the right-hand side starts a new product group (`is_or[0]` is
/// always false).
#[derive(Clone, Debug, PartialEq)]
pub struct Equation {
    pub line_num: LineNum,
    pub lhs: LHS,
    pub rhs: Vec<Pin>,
    pub is_or: Vec<bool>,
}

/// The left-hand side of an equation: an output pin with its suffix,
/// or one of the two global terms of the GAL22V10.
#[derive(Clone, Copy, Debug, PartialEq, Eq)]
pub enum LHS {
    Pin((Pin, Suffix)),
    Ar,
    Sp,
}

/// The dotted suffix of a left-hand pin.
#[derive(Clone, Copy, Debug, Eq, PartialEq, Structural)]
pub enum Suffix {
    Plain,
    T,
    R,
    E,
    CLK,
    APRST,
    ARST,
}

/// The mathematical content of an `Equation`.
pub struct EquationView {
    pub line_num: LineNum,
    pub lhs: LHS,
    pub rhs: Seq<Pin>,
    pub is_or: Seq<bool>,
}

impl View for Equation {
    type V = EquationView;

    open spec fn view(&self) -> EquationView {
        EquationView {
            line_num: self.line_num,
            lhs: self.lhs,
            rhs: self.rhs@,
            is_or: self.is_or@,
        }
    }
}

impl EquationView {
    /// Shape and pin numbers as the parser guarantees them.
    pub open spec fn valid_for(self, chip: Chip) -> bool {
        &&& self.rhs.len() >= 1
        &&& self.is_or.len() == self.rhs.len()
        &&& self.is_or[0] == false
        &&& forall|j: int| 0 <= j < self.rhs.len() ==> 1 <= (#[trigger] self.rhs[j]).pin
            <= chip.num_pins()
        &&& self.lhs matches LHS::Pin((p, _)) ==> 1 <= p.pin <= chip.num_pins()
    }
}

/// The mathematical content of a `Content`.
pub struct ContentView {
    pub chip: Chip,
    pub sig: Seq<u8>,
    pub pins: Seq<Seq<char>>,
    pub eqns: Seq<EquationView>,
}

impl View for Content {
    type V = ContentView;

    open spec fn view(&self) -> ContentView {
        ContentView {
            chip: self.chip,
            sig: self.sig@,
            pins: self.pins@.map_values(|s: String| s@),
            eqns: self.eqns@.map_values(|e: Equation| e@),
        }
    }
}

impl ContentView {
    pub open spec fn valid(self) -> bool {
        forall|i: int| 0 <= i < self.eqns.len() ==> (#[trigger] self.eqns[i]).valid_for(self.chip)
    }
}


// ---------------------------------------------------------------------
// Tokens
// ---------------------------------------------------------------------

/// Used where the line number of an end-of-file error is unknown; the
/// top level replaces it with the number of the last line.
pub const EOF_LINE: LineNum = 0;

/// The mathematical content of one token.
pub enum TokenView {
    Item { name: Seq<char>, neg: bool, suffix: Suffix },
    Equals,
    And,
    Or,
}

struct NamedPin {
    name: Vec<char>,
    neg: bool,
}

enum Token {
    Item(NamedPin, Suffix),
    Equals,
    And,
    Or,
}

spec fn tok_view(t: Token) -> TokenView {
    match t {
        Token::Item(np, suffix) => TokenView::Item { name: np.name@, neg: np.neg, suffix },
        Token::Equals => TokenView::Equals,
        Token::And => TokenView::And,
        Token::Or => TokenView::Or,
    }
}

spec fn toks_view(v: Seq<(LineNum, Token)>) -> Seq<(LineNum, TokenView)> {
    v.map_values(|t: (LineNum, Token)| (t.0, tok_view(t.1)))
}

/// A token that joins or starts a product group.
pub open spec fn is_op(t: TokenView) -> bool {
    t is And || t is Or
}

// ---------------------------------------------------------------------
// Line cleaning
// ---------------------------------------------------------------------

/// The index of the first `;`, or the length.
pub open spec fn spec_semi_end(s: Seq<char>, i: int) -> int
    decreases s.len() - i
        when 0 <= i <= s.len()
{
    if i < s.len() && s[i] != ';' {
        spec_semi_end(s, i + 1)
    } else {
        i
    }
}

/// The line with everything from the first `;` on dropped.
pub open spec fn spec_remove_comment(s: Seq<char>) -> Seq<char> {
    s.take(spec_semi_end(s, 0))
}

/// A line as the parser sees it: comment stripped, ends trimmed.
pub open spec fn spec_clean(s: Seq<char>) -> Seq<char> {
    crate::text::spec_trim(spec_remove_comment(s))
}

proof fn lemma_semi_end_bounds(s: Seq<char>, i: int)
    requires
        0 <= i <= s.len(),
    ensures
        i <= spec_semi_end(s, i) <= s.len(),
    decreases s.len() - i,
{
    if i < s.len() && s[i] != ';' {
        lemma_semi_end_bounds(s, i + 1);
    }
}

fn remove_comment(v: &Vec<char>) -> (r: Vec<char>)
    ensures
        r@ == spec_remove_comment(v@),
{
    let n = v.len();
    let mut e: usize = 0;
    while e < n && v[e] != ';'
        invariant
            0 <= e <= n,
            n == v@.len(),
            spec_semi_end(v@, 0) == spec_semi_end(v@, e as int),
        decreases n - e,
    {
        e = e + 1;
    }
    proof {
        lemma_semi_end_bounds(v@, e as int);
    }
    let mut r: Vec<char> = Vec::new();
    let mut i: usize = 0;
    while i < e
        invariant
            0 <= i <= e <= n,
            n == v@.len(),
            r@ == v@.take(i as int),
        decreases e - i,
    {
        let c = v[i];
        r.push(c);
        proof {
            assert(r@ =~= v@.take(i + 1));
        }
        i = i + 1;
    }
    r
}

/// Strip the comment and the surrounding white space of a line.
fn clean_line(s: &String) -> (r: Vec<char>)
    ensures
        r@ == spec_clean(s@),
{
    let cs = crate::text::str_chars(s.as_str());
    let stripped = remove_comment(&cs);
    crate::text::trim(&stripped)
}

// ---------------------------------------------------------------------
// The tokeniser
// ---------------------------------------------------------------------

/// The end of the alphanumeric run starting at `j`.
pub open spec fn spec_run_end(s: Seq<char>, j: int) -> int
    decreases s.len() - j
        when 0 <= j <= s.len()
{
    if j < s.len() && crate::text::spec_is_alnum(s[j]) {
        spec_run_end(s, j + 1)
    } else {
        j
    }
}

proof fn lemma_run_end_bounds(s: Seq<char>, j: int)
    requires
        0 <= j <= s.len(),
    ensures
        j <= spec_run_end(s, j) <= s.len(),
    decreases s.len() - j,
{
    if j < s.len() && crate::text::spec_is_alnum(s[j]) {
        lemma_run_end_bounds(s, j + 1);
    }
}

fn run_end(s: &Vec<char>, j: usize) -> (r: usize)
    requires
        j <= s@.len(),
    ensures
        r == spec_run_end(s@, j as int),
        j <= r <= s@.len(),
    decreases s@.len() - j,
{
    proof {
        lemma_run_end_bounds(s@, j as int);
    }
    if j < s.len() && crate::text::is_alnum(s[j]) {
        run_end(s, j + 1)
    } else {
        j
    }
}

/// The suffix a dotted extension names.
pub open spec fn spec_suffix_of(ext: Seq<char>) -> Result<Suffix, ErrorCode> {
    if ext == "T"@ {
        Ok(Suffix::T)
    } else if ext == "R"@ {
        Ok(Suffix::R)
    } else if ext == "E"@ {
        Ok(Suffix::E)
    } else if ext == "CLK"@ {
        Ok(Suffix::CLK)
    } else if ext == "APRST"@ {
        Ok(Suffix::APRST)
    } else if ext == "ARST"@ {
        Ok(Suffix::ARST)
    } else {
        Err(ErrorCode::BadSuffix)
    }
}

fn ext_to_suffix(ext: &Vec<char>) -> (r: Result<Suffix, ErrorCode>)
    ensures
        r == spec_suffix_of(ext@),
{
    if crate::text::chars_eq_str(ext, "T") {
        Ok(Suffix::T)
    } else if crate::text::chars_eq_str(ext, "R") {
        Ok(Suffix::R)
    } else if crate::text::chars_eq_str(ext, "E") {
        Ok(Suffix::E)
    } else if crate::text::chars_eq_str(ext, "CLK") {
        Ok(Suffix::CLK)
    } else if crate::text::chars_eq_str(ext, "APRST") {
        Ok(Suffix::APRST)
    } else if crate::text::chars_eq_str(ext, "ARST") {
        Ok(Suffix::ARST)
    } else {
        Err(ErrorCode::BadSuffix)
    }
}

/// One pin token starting at `i`: an optional `/`, a name beginning
/// with a letter, alphanumerics, and an optional dotted suffix.
/// Yields the token and the position after it.
pub open spec fn spec_tokenise_pin(s: Seq<char>, i: int) -> Result<(TokenView, int), ErrorCode> {
    let neg = 0 <= i < s.len() && s[i] == '/';
    let j0 = if neg {
        i + 1
    } else {
        i
    };
    if !(0 <= j0 < s.len() && crate::text::spec_is_alpha(s[j0])) {
        Err(ErrorCode::NoPinName)
    } else {
        let j1 = spec_run_end(s, j0);
        if j1 < s.len() && s[j1] == '.' {
            let j2 = spec_run_end(s, j1 + 1);
            match spec_suffix_of(s.subrange(j1 + 1, j2)) {
                Err(e) => Err(e),
                Ok(sfx) => Ok(
                    (TokenView::Item { name: s.subrange(j0, j1), neg, suffix: sfx }, j2),
                ),
            }
        } else {
            Ok((TokenView::Item { name: s.subrange(j0, j1), neg, suffix: Suffix::Plain }, j1))
        }
    }
}

fn copy_range(s: &Vec<char>, a: usize, b: usize) -> (r: Vec<char>)
    requires
        a <= b <= s@.len(),
    ensures
        r@ == s@.subrange(a as int, b as int),
{
    let mut r: Vec<char> = Vec::new();
    let mut i = a;
    while i < b
        invariant
            a <= i <= b <= s@.len(),
            r@ == s@.subrange(a as int, i as int),
        decreases b - i,
    {
        let c = s[i];
        r.push(c);
        proof {
            assert(r@ =~= s@.subrange(a as int, i + 1));
        }
        i = i + 1;
    }
    r
}

fn tokenise_pin(s: &Vec<char>, i: usize) -> (r: Result<(Token, usize), ErrorCode>)
    requires
        i <= s@.len(),
    ensures
        match spec_tokenise_pin(s@, i as int) {
            Ok((tv, j)) => r matches Ok(p) && tok_view(p.0) == tv && p.1 as int == j && i < p.1
                <= s@.len(),
            Err(e) => r matches Err(e2) && e2 == e,
        },
{
    let n = s.len();
    let mut neg = false;
    let mut j0 = i;
    if i < n && s[i] == '/' {
        neg = true;
        j0 = i + 1;
    }
    if !(j0 < n && crate::text::is_alpha(s[j0])) {
        return Err(ErrorCode::NoPinName);
    }
    let j1 = run_end(s, j0);
    proof {
        assert(j1 > j0) by {
            assert(crate::text::spec_is_alnum(s@[j0 as int]));
            lemma_run_end_bounds(s@, j0 as int + 1);
            assert(spec_run_end(s@, j0 as int) == spec_run_end(s@, j0 as int + 1));
        }
    }
    let name = copy_range(s, j0, j1);
    if j1 < n && s[j1] == '.' {
        let j2 = run_end(s, j1 + 1);
        let ext = copy_range(s, j1 + 1, j2);
        match ext_to_suffix(&ext) {
            Err(e) => Err(e),
            Ok(sfx) => Ok((Token::Item(NamedPin { name, neg }, sfx), j2)),
        }
    } else {
        Ok((Token::Item(NamedPin { name, neg }, Suffix::Plain), j1))
    }
}

/// The tokens of a line from position `i` on: operators, pin items,
/// white space between them; anything else is `BadChar`.
pub open spec fn spec_tokenise(s: Seq<char>, i: int) -> Result<Seq<TokenView>, ErrorCode>
    decreases s.len() - i
        when 0 <= i <= s.len()
{
    if i >= s.len() {
        Ok(Seq::empty())
    } else {
        let c = s[i];
        if c == '=' {
            spec_tok_cons(TokenView::Equals, spec_tokenise(s, i + 1))
        } else if c == '+' || c == '#' {
            spec_tok_cons(TokenView::Or, spec_tokenise(s, i + 1))
        } else if c == '*' || c == '&' {
            spec_tok_cons(TokenView::And, spec_tokenise(s, i + 1))
        } else if c == '/' || crate::text::spec_is_alpha(c) {
            match spec_tokenise_pin(s, i) {
                Err(e) => Err(e),
                Ok(p) => {
                    let jn = if p.1 < i + 1 {
                        i + 1
                    } else if p.1 > s.len() {
                        s.len() as int
                    } else {
                        p.1
                    };
                    spec_tok_cons(p.0, spec_tokenise(s, jn))
                },
            }
        } else if crate::text::spec_is_space(c) {
            spec_tokenise(s, i + 1)
        } else {
            Err(ErrorCode::BadChar { c })
        }
    }
}

pub open spec fn spec_tok_cons(t: TokenView, rest: Result<Seq<TokenView>, ErrorCode>) -> Result<
    Seq<TokenView>,
    ErrorCode,
> {
    match rest {
        Ok(ts) => Ok(seq![t] + ts),
        Err(e) => Err(e),
    }
}

/// Attach a line number to every token of a line.
pub open spec fn with_line(line: LineNum, tvs: Seq<TokenView>) -> Seq<(LineNum, TokenView)> {
    tvs.map_values(|t: TokenView| (line, t))
}

fn tokenise_from(line_num: LineNum, s: &Vec<char>, i: usize) -> (r: Result<
    Vec<(LineNum, Token)>,
    Error,
>)
    requires
        i <= s@.len(),
    ensures
        match spec_tokenise(s@, i as int) {
            Ok(tvs) => r matches Ok(v) && toks_view(v@) == with_line(line_num, tvs),
            Err(e) => r matches Err(e2) && e2 == Error { code: e, line: line_num },
        },
    decreases s@.len() - i,
{
    let n = s.len();
    if i >= n {
        let rv: Vec<(LineNum, Token)> = Vec::new();
        proof {
            assert(toks_view(rv@) =~= with_line(line_num, Seq::<TokenView>::empty()));
        }
        return Ok(rv);
    }
    let c = s[i];
    if c == '=' {
        match tokenise_from(line_num, s, i + 1) {
            Err(e) => Err(e),
            Ok(mut rest) => {
                let ghost rv = rest@;
                rest.insert(0, (line_num, Token::Equals));
                proof {
                    assert(rest@.drop_first() =~= rv);
                    lemma_cons_view(
                        rest@,
                        line_num,
                        spec_tokenise(s@, i as int + 1)->Ok_0,
                    );
                }
                Ok(rest)
            },
        }
    } else if c == '+' || c == '#' {
        match tokenise_from(line_num, s, i + 1) {
            Err(e) => Err(e),
            Ok(mut rest) => {
                let ghost rv = rest@;
                rest.insert(0, (line_num, Token::Or));
                proof {
                    assert(rest@.drop_first() =~= rv);
                    lemma_cons_view(
                        rest@,
                        line_num,
                        spec_tokenise(s@, i as int + 1)->Ok_0,
                    );
                }
                Ok(rest)
            },
        }
    } else if c == '*' || c == '&' {
        match tokenise_from(line_num, s, i + 1) {
            Err(e) => Err(e),
            Ok(mut rest) => {
                let ghost rv = rest@;
                rest.insert(0, (line_num, Token::And));
                proof {
                    assert(rest@.drop_first() =~= rv);
                    lemma_cons_view(
                        rest@,
                        line_num,
                        spec_tokenise(s@, i as int + 1)->Ok_0,
                    );
                }
                Ok(rest)
            },
        }
    } else if c == '/' || crate::text::is_alpha(c) {
        match tokenise_pin(s, i) {
            Err(e) => Err(Error { code: e, line: line_num }),
            Ok((t, j)) => {
                match tokenise_from(line_num, s, j) {
                    Err(e) => Err(e),
                    Ok(mut rest) => {
                        let ghost rv = rest@;
                        rest.insert(0, (line_num, t));
                        proof {
                            assert(rest@.drop_first() =~= rv);
                            lemma_cons_view(
                                rest@,
                                line_num,
                                spec_tokenise(s@, j as int)->Ok_0,
                            );
                        }
                        Ok(rest)
                    },
                }
            },
        }
    } else if crate::text::is_space(c) {
        tokenise_from(line_num, s, i + 1)
    } else {
        Err(Error { code: ErrorCode::BadChar { c }, line: line_num })
    }
}

proof fn lemma_cons_view(v: Seq<(LineNum, Token)>, line_num: LineNum, rest: Seq<TokenView>)
    requires
        v.len() >= 1,
        toks_view(v.drop_first()) == with_line(line_num, rest),
        v[0].0 == line_num,
    ensures
        toks_view(v) == with_line(line_num, seq![tok_view(v[0].1)] + rest),
{
    let lhs = toks_view(v);
    let rhs = with_line(line_num, seq![tok_view(v[0].1)] + rest);
    assert(toks_view(v.drop_first()).len() == v.len() - 1);
    assert(with_line(line_num, rest).len() == rest.len());
    assert(lhs.len() == rhs.len());
    assert forall|k: int| 0 <= k < lhs.len() implies lhs[k] == rhs[k] by {
        if k > 0 {
            assert(toks_view(v.drop_first())[k - 1] == lhs[k]);
            assert(with_line(line_num, rest)[k - 1] == rhs[k]);
        }
    }
    assert(lhs =~= rhs);
}

/// Tokenise a whole line.
fn tokenise(line_num: LineNum, s: &Vec<char>) -> (r: Result<Vec<(LineNum, Token)>, Error>)
    ensures
        match spec_tokenise(s@, 0) {
            Ok(tvs) => r matches Ok(v) && toks_view(v@) == with_line(line_num, tvs),
            Err(e) => r matches Err(e2) && e2 == Error { code: e, line: line_num },
        },
{
    tokenise_from(line_num, s, 0)
}

// ---------------------------------------------------------------------
// The pin map
// ---------------------------------------------------------------------

/// The first pin recorded under a name, if any.
pub open spec fn spec_map_get(map: Seq<(Seq<char>, Pin)>, name: Seq<char>) -> Option<Pin>
    decreases map.len(),
{
    if map.len() == 0 {
        None
    } else if map[0].0 == name {
        Some(map[0].1)
    } else {
        spec_map_get(map.drop_first(), name)
    }
}

/// Every pin number recorded lies on the package.
pub open spec fn map_valid(map: Seq<(Seq<char>, Pin)>, chip: Chip) -> bool {
    forall|k: int| 0 <= k < map.len() ==> 1 <= (#[trigger] map[k]).1.pin <= chip.num_pins()
}

proof fn lemma_map_get_valid(map: Seq<(Seq<char>, Pin)>, chip: Chip, name: Seq<char>)
    requires
        map_valid(map, chip),
        spec_map_get(map, name) is Some,
    ensures
        1 <= spec_map_get(map, name)->Some_0.pin <= chip.num_pins(),
    decreases map.len(),
{
    if map.len() > 0 && !(map[0].0 == name) {
        assert(map_valid(map.drop_first(), chip)) by {
            assert(forall|k: int|
                0 <= k < map.drop_first().len() ==> map.drop_first()[k] == map[k + 1]);
        }
        lemma_map_get_valid(map.drop_first(), chip, name);
    }
}

/// Compare two character vectors.
fn chars_eq_chars(a: &Vec<char>, b: &Vec<char>) -> (r: bool)
    ensures
        r == (a@ == b@),
{
    if a.len() != b.len() {
        assert(a@.len() != b@.len());
        return false;
    }
    let n = a.len();
    let mut i: usize = 0;
    while i < n
        invariant
            0 <= i <= n,
            n == a@.len() == b@.len(),
            forall|j: int| 0 <= j < i ==> a@[j] == b@[j],
        decreases n - i,
    {
        if a[i] != b[i] {
            return false;
        }
        i = i + 1;
    }
    proof {
        assert(a@ =~= b@);
    }
    true
}

/// Pin names as defined, each with its number and polarity.
struct PinMap {
    entries: Vec<(Vec<char>, Pin)>,
}

impl PinMap {
    spec fn view_map(&self) -> Seq<(Seq<char>, Pin)> {
        self.entries@.map_values(|e: (Vec<char>, Pin)| (e.0@, e.1))
    }

    fn new() -> (r: PinMap)
        ensures
            r.view_map() == Seq::<(Seq<char>, Pin)>::empty(),
    {
        let r = PinMap { entries: Vec::new() };
        proof {
            assert(r.view_map() =~= Seq::<(Seq<char>, Pin)>::empty());
        }
        r
    }

    fn get(&self, name: &Vec<char>) -> (r: Option<Pin>)
        ensures
            r == spec_map_get(self.view_map(), name@),
    {
        let ghost m = self.view_map();
        let n = self.entries.len();
        let mut k: usize = 0;
        proof {
            assert(m.skip(0) =~= m);
        }
        while k < n
            invariant
                0 <= k <= n,
                n == m.len(),
                m == self.view_map(),
                spec_map_get(m, name@) == spec_map_get(m.skip(k as int), name@),
            decreases n - k,
        {
            proof {
                assert(m.skip(k as int)[0] == m[k as int]);
                assert(m.skip(k as int).drop_first() =~= m.skip(k as int + 1));
                assert(m[k as int] == (self.entries@[k as int].0@, self.entries@[k as int].1));
            }
            let hit = chars_eq_chars(&self.entries[k].0, name);
            if hit {
                return Some(self.entries[k].1);
            }
            k = k + 1;
        }
        proof {
            assert(m.skip(n as int) =~= Seq::<(Seq<char>, Pin)>::empty());
        }
        None
    }
}

/// Resolve a referenced name against the pin map; the reference's
/// negation is XOR'd with the definition-time negation.
pub open spec fn spec_lookup_pin(
    chip: Chip,
    map: Seq<(Seq<char>, Pin)>,
    name: Seq<char>,
    neg: bool,
) -> Result<Pin, ErrorCode> {
    match spec_map_get(map, name) {
        Some(p) => Ok(Pin { pin: p.pin, neg: p.neg != neg }),
        None => {
            if name == "NC"@ {
                Err(ErrorCode::BadNC)
            } else if chip == Chip::GAL22V10 && name == "AR"@ {
                Err(ErrorCode::BadSpecial { term: SpecialProductTerm::AR })
            } else if chip == Chip::GAL22V10 && name == "SP"@ {
                Err(ErrorCode::BadSpecial { term: SpecialProductTerm::SP })
            } else {
                Err(ErrorCode::UnknownPin)
            }
        },
    }
}

fn lookup_pin(chip: Chip, pin_map: &PinMap, name: &Vec<char>, neg: bool) -> (r: Result<
    Pin,
    ErrorCode,
>)
    ensures
        r == spec_lookup_pin(chip, pin_map.view_map(), name@, neg),
{
    match pin_map.get(name) {
        Some(p) => Ok(Pin { pin: p.pin, neg: p.neg != neg }),
        None => {
            if crate::text::chars_eq_str(name, "NC") {
                Err(ErrorCode::BadNC)
            } else if matches!(chip, Chip::GAL22V10) && crate::text::chars_eq_str(name, "AR") {
                Err(ErrorCode::BadSpecial { term: SpecialProductTerm::AR })
            } else if matches!(chip, Chip::GAL22V10) && crate::text::chars_eq_str(name, "SP") {
                Err(ErrorCode::BadSpecial { term: SpecialProductTerm::SP })
            } else {
                Err(ErrorCode::UnknownPin)
            }
        },
    }
}

// ---------------------------------------------------------------------
// Pin-definition rows
// ---------------------------------------------------------------------

/// A row's worth of names folded into the pin map, with the power,
/// `NC`, duplicate and reserved-name rules enforced.  Yields the map
/// reached and the first violation, if any.
pub open spec fn spec_extend_pin_map(
    map: Seq<(Seq<char>, Pin)>,
    chip: Chip,
    pin_num: int,
    pins: Seq<(Seq<char>, bool)>,
) -> (Seq<(Seq<char>, Pin)>, Option<ErrorCode>)
    decreases pins.len(),
{
    if pins.len() == 0 {
        (map, None)
    } else {
        let name = pins[0].0;
        let neg = pins[0].1;
        let num_pins = chip.num_pins() as int;
        if pin_num == num_pins && !(name == "VCC"@ && !neg) {
            (
                map,
                Some(ErrorCode::InvalidPowerPinName { pin: pin_num as usize, name: PowerName::VCC }),
            )
        } else if pin_num == num_pins / 2 && !(name == "GND"@ && !neg) {
            (
                map,
                Some(ErrorCode::InvalidPowerPinName { pin: pin_num as usize, name: PowerName::GND }),
            )
        } else if name == "VCC"@ && pin_num != num_pins {
            (
                map,
                Some(
                    ErrorCode::InvalidPowerPinLocation {
                        pin: pin_num as usize,
                        name: PowerName::VCC,
                        expected_pin: num_pins as usize,
                    },
                ),
            )
        } else if name == "GND"@ && pin_num != num_pins / 2 {
            (
                map,
                Some(
                    ErrorCode::InvalidPowerPinLocation {
                        pin: pin_num as usize,
                        name: PowerName::GND,
                        expected_pin: (num_pins / 2) as usize,
                    },
                ),
            )
        } else if name == "NC"@ {
            spec_extend_pin_map(map, chip, pin_num + 1, pins.drop_first())
        } else if spec_map_get(map, name) is Some {
            (map, Some(ErrorCode::RepeatedPinName))
        } else if chip == Chip::GAL22V10 && name == "AR"@ {
            (map, Some(ErrorCode::ReservedPinName { term: SpecialProductTerm::AR }))
        } else if chip == Chip::GAL22V10 && name == "SP"@ {
            (map, Some(ErrorCode::ReservedPinName { term: SpecialProductTerm::SP }))
        } else {
            spec_extend_pin_map(
                map.push((name, Pin { pin: pin_num as usize, neg })),
                chip,
                pin_num + 1,
                pins.drop_first(),
            )
        }
    }
}

proof fn lemma_extend_map_valid(
    map: Seq<(Seq<char>, Pin)>,
    chip: Chip,
    pin_num: int,
    pins: Seq<(Seq<char>, bool)>,
)
    requires
        map_valid(map, chip),
        1 <= pin_num,
        pin_num + pins.len() <= chip.num_pins() + 1,
    ensures
        map_valid(spec_extend_pin_map(map, chip, pin_num, pins).0, chip),
    decreases pins.len(),
{
    if pins.len() > 0 {
        let name = pins[0].0;
        let neg = pins[0].1;
        if name == "NC"@ {
            lemma_extend_map_valid(map, chip, pin_num + 1, pins.drop_first());
        } else {
            let m2 = map.push((name, Pin { pin: pin_num as usize, neg }));
            if map_valid(m2, chip) {
                lemma_extend_map_valid(m2, chip, pin_num + 1, pins.drop_first());
            }
        }
    }
}

fn extend_rec(
    pin_map: &mut PinMap,
    chip: Chip,
    pin_num: usize,
    pins: &Vec<(Vec<char>, bool)>,
    k: usize,
) -> (r: Result<(), ErrorCode>)
    requires
        k <= pins@.len(),
        pin_num + (pins@.len() - k) <= chip.num_pins() + 1,
        1 <= pin_num,
    ensures
        ({
            let res = spec_extend_pin_map(
                old(pin_map).view_map(),
                chip,
                pin_num as int,
                pins@.map_values(|p: (Vec<char>, bool)| (p.0@, p.1)).skip(k as int),
            );
            &&& final(pin_map).view_map() == res.0
            &&& r == (match res.1 {
                None => Ok::<(), ErrorCode>(()),
                Some(e) => Err::<(), ErrorCode>(e),
            })
        }),
    decreases pins@.len() - k,
{
    let ghost pv = pins@.map_values(|p: (Vec<char>, bool)| (p.0@, p.1)).skip(k as int);
    let n = pins.len();
    if k >= n {
        proof {
            assert(pv =~= Seq::<(Seq<char>, bool)>::empty());
        }
        return Ok(());
    }
    proof {
        assert(pv[0] == (pins@[k as int].0@, pins@[k as int].1));
        assert(pv.drop_first() =~= pins@.map_values(|p: (Vec<char>, bool)| (p.0@, p.1)).skip(
            k as int + 1,
        ));
    }
    let name = &pins[k].0;
    let neg = pins[k].1;
    let num_pins = chip.num_pins();
    let is_vcc = crate::text::chars_eq_str(name, "VCC");
    let is_gnd = crate::text::chars_eq_str(name, "GND");
    if pin_num == num_pins && !(is_vcc && !neg) {
        return Err(ErrorCode::InvalidPowerPinName { pin: pin_num, name: PowerName::VCC });
    }
    if pin_num == num_pins / 2 && !(is_gnd && !neg) {
        return Err(ErrorCode::InvalidPowerPinName { pin: pin_num, name: PowerName::GND });
    }
    if is_vcc && pin_num != num_pins {
        return Err(
            ErrorCode::InvalidPowerPinLocation {
                pin: pin_num,
                name: PowerName::VCC,
                expected_pin: num_pins,
            },
        );
    }
    if is_gnd && pin_num != num_pins / 2 {
        return Err(
            ErrorCode::InvalidPowerPinLocation {
                pin: pin_num,
                name: PowerName::GND,
                expected_pin: num_pins / 2,
            },
        );
    }
    if crate::text::chars_eq_str(name, "NC") {
        return extend_rec(pin_map, chip, pin_num + 1, pins, k + 1);
    }
    match pin_map.get(name) {
        Some(_) => {
            return Err(ErrorCode::RepeatedPinName);
        },
        None => {},
    }
    if matches!(chip, Chip::GAL22V10) && crate::text::chars_eq_str(name, "AR") {
        return Err(ErrorCode::ReservedPinName { term: SpecialProductTerm::AR });
    }
    if matches!(chip, Chip::GAL22V10) && crate::text::chars_eq_str(name, "SP") {
        return Err(ErrorCode::ReservedPinName { term: SpecialProductTerm::SP });
    }
    let name_copy = copy_range(name, 0, name.len());
    pin_map.entries.push((name_copy, Pin { pin: pin_num, neg }));
    proof {
        assert(name_copy@ =~= name@);
        assert(pin_map.view_map() =~= old(pin_map).view_map().push((name@, Pin { pin: pin_num, neg })));
    }
    extend_rec(pin_map, chip, pin_num + 1, pins, k + 1)
}

/// Add a row's worth of pins to the pin map.
pub fn extend_pin_map(
    pin_map_entries: &mut Vec<(Vec<char>, Pin)>,
    chip: Chip,
    row_num: usize,
    pins: &Vec<(Vec<char>, bool)>,
) -> (r: Result<(), ErrorCode>)
    requires
        row_num <= 1,
        pins@.len() == chip.num_pins() / 2,
    ensures
        ({
            let res = spec_extend_pin_map(
                old(pin_map_entries)@.map_values(|e: (Vec<char>, Pin)| (e.0@, e.1)),
                chip,
                1 + row_num * (chip.num_pins() / 2),
                pins@.map_values(|p: (Vec<char>, bool)| (p.0@, p.1)),
            );
            &&& final(pin_map_entries)@.map_values(|e: (Vec<char>, Pin)| (e.0@, e.1)) == res.0
            &&& r == (match res.1 {
                None => Ok::<(), ErrorCode>(()),
                Some(e) => Err::<(), ErrorCode>(e),
            })
        }),
{
    proof {
        assert(chip.num_pins() == 20 || chip.num_pins() == 24);
    }
    let mut pm = PinMap { entries: Vec::new() };
    core::mem::swap(&mut pm.entries, pin_map_entries);
    let first_pin = 1 + row_num * (chip.num_pins() / 2);
    let r = extend_rec(&mut pm, chip, first_pin, pins, 0);
    core::mem::swap(&mut pm.entries, pin_map_entries);
    proof {
        assert(pins@.map_values(|p: (Vec<char>, bool)| (p.0@, p.1)).skip(0) =~= pins@.map_values(
            |p: (Vec<char>, bool)| (p.0@, p.1),
        ));
    }
    r
}

/// The `(name, polarity)` pairs of a pin-definition line's tokens:
/// every token must be a bare pin name.
pub open spec fn spec_pins_of_tokens(tvs: Seq<TokenView>) -> Result<Seq<(Seq<char>, bool)>, ErrorCode>
    decreases tvs.len(),
{
    if tvs.len() == 0 {
        Ok(Seq::empty())
    } else {
        match tvs[0] {
            TokenView::Item { name, neg, suffix: Suffix::Plain } => {
                match spec_pins_of_tokens(tvs.drop_first()) {
                    Ok(rest) => Ok(seq![(name, neg)] + rest),
                    Err(e) => Err(e),
                }
            },
            _ => Err(ErrorCode::BadPin),
        }
    }
}

fn pins_of_tokens(toks: &Vec<(LineNum, Token)>, k: usize) -> (r: Result<
    Vec<(Vec<char>, bool)>,
    ErrorCode,
>)
    requires
        k <= toks@.len(),
    ensures
        ({
            let tvs = toks_view(toks@).map_values(|t: (LineNum, TokenView)| t.1).skip(k as int);
            match spec_pins_of_tokens(tvs) {
                Ok(ps) => r matches Ok(v) && v@.map_values(|p: (Vec<char>, bool)| (p.0@, p.1))
                    == ps,
                Err(e) => r matches Err(e2) && e2 == e,
            }
        }),
    decreases toks@.len() - k,
{
    let ghost tvs = toks_view(toks@).map_values(|t: (LineNum, TokenView)| t.1).skip(k as int);
    let n = toks.len();
    if k >= n {
        let rv: Vec<(Vec<char>, bool)> = Vec::new();
        proof {
            assert(tvs =~= Seq::<TokenView>::empty());
            assert(rv@.map_values(|p: (Vec<char>, bool)| (p.0@, p.1)) =~= Seq::<
                (Seq<char>, bool),
            >::empty());
        }
        return Ok(rv);
    }
    proof {
        assert(tvs[0] == toks_view(toks@)[k as int].1);
        assert(tvs.drop_first() =~= toks_view(toks@).map_values(|t: (LineNum, TokenView)| t.1).skip(
            k as int + 1,
        ));
    }
    match &toks[k].1 {
        Token::Item(np, Suffix::Plain) => {
            let name = copy_range(&np.name, 0, np.name.len());
            let neg = np.neg;
            match pins_of_tokens(toks, k + 1) {
                Ok(mut rest) => {
                    rest.insert(0, (name, neg));
                    proof {
                        assert(name@ =~= np.name@);
                        let mapped = rest@.map_values(|p: (Vec<char>, bool)| (p.0@, p.1));
                        let want = spec_pins_of_tokens(tvs)->Ok_0;
                        assert(mapped =~= want) by {
                            assert(forall|x: int|
                                1 <= x < mapped.len() ==> mapped[x] == rest@.drop_first().map_values(
                                    |p: (Vec<char>, bool)| (p.0@, p.1),
                                )[x - 1]);
                            assert(rest@.drop_first() =~= rest@.skip(1));
                        }
                    }
                    Ok(rest)
                },
                Err(e) => Err(e),
            }
        },
        _ => Err(ErrorCode::BadPin),
    }
}


// ---------------------------------------------------------------------
// Equations
// ---------------------------------------------------------------------

/// A right-hand-side pin at token position `k`: a bare name, looked
/// up in the pin map.
pub open spec fn spec_token_pin(
    chip: Chip,
    map: Seq<(Seq<char>, Pin)>,
    toks: Seq<(LineNum, TokenView)>,
    k: int,
) -> Result<Pin, Error> {
    if k >= toks.len() {
        Err(Error { code: ErrorCode::BadEOL, line: EOF_LINE })
    } else {
        match toks[k].1 {
            TokenView::Item { name, neg, suffix } => {
                if !(suffix is Plain) {
                    Err(Error { code: ErrorCode::BadPin, line: toks[k].0 })
                } else {
                    match spec_lookup_pin(chip, map, name, neg) {
                        Err(e) => Err(Error { code: e, line: toks[k].0 }),
                        Ok(p) => Ok(p),
                    }
                }
            },
            _ => Err(Error { code: ErrorCode::BadToken, line: toks[k].0 }),
        }
    }
}

/// The rest of a right-hand side from position `k` on: operator and
/// pin, alternating, `is_or` recording which operator.
pub open spec fn spec_parse_rhs(
    chip: Chip,
    map: Seq<(Seq<char>, Pin)>,
    toks: Seq<(LineNum, TokenView)>,
    k: int,
    rhs: Seq<Pin>,
    is_or: Seq<bool>,
) -> Result<(Seq<Pin>, Seq<bool>), Error>
    decreases toks.len() - k when 0 <= k
{
    if k >= toks.len() {
        Ok((rhs, is_or))
    } else {
        match toks[k].1 {
            TokenView::And => match spec_token_pin(chip, map, toks, k + 1) {
                Err(e) => Err(e),
                Ok(p) => {
                    let kn = if k + 2 > toks.len() {
                        toks.len() as int
                    } else {
                        k + 2
                    };
                    spec_parse_rhs(chip, map, toks, kn, rhs.push(p), is_or.push(false))
                },
            },
            TokenView::Or => match spec_token_pin(chip, map, toks, k + 1) {
                Err(e) => Err(e),
                Ok(p) => {
                    let kn = if k + 2 > toks.len() {
                        toks.len() as int
                    } else {
                        k + 2
                    };
                    spec_parse_rhs(chip, map, toks, kn, rhs.push(p), is_or.push(true))
                },
            },
            _ => Err(Error { code: ErrorCode::BadToken, line: toks[k].0 }),
        }
    }
}

/// The left-hand side: a pin with an optional suffix, or (on the
/// GAL22V10) the bare names `AR` and `SP`.
pub open spec fn spec_parse_lhs(
    chip: Chip,
    map: Seq<(Seq<char>, Pin)>,
    toks: Seq<(LineNum, TokenView)>,
) -> Result<LHS, Error> {
    if toks.len() == 0 {
        Err(Error { code: ErrorCode::BadToken, line: EOF_LINE })
    } else {
        match toks[0].1 {
            TokenView::Item { name, neg, suffix } => {
                if chip == Chip::GAL22V10 && (name == "AR"@ || name == "SP"@) {
                    let term = if name == "AR"@ {
                        SpecialProductTerm::AR
                    } else {
                        SpecialProductTerm::SP
                    };
                    if !(suffix is Plain) {
                        Err(Error { code: ErrorCode::SpecialSuffix { term }, line: toks[0].0 })
                    } else if neg {
                        Err(Error { code: ErrorCode::InvertedSpecial { term }, line: toks[0].0 })
                    } else if name == "AR"@ {
                        Ok(LHS::Ar)
                    } else {
                        Ok(LHS::Sp)
                    }
                } else {
                    match spec_lookup_pin(chip, map, name, neg) {
                        Err(e) => Err(Error { code: e, line: toks[0].0 }),
                        Ok(p) => Ok(LHS::Pin((p, suffix))),
                    }
                }
            },
            _ => Err(Error { code: ErrorCode::BadToken, line: EOF_LINE }),
        }
    }
}

/// A whole equation from the tokens of one logical line.
pub open spec fn spec_parse_equation(
    chip: Chip,
    map: Seq<(Seq<char>, Pin)>,
    toks: Seq<(LineNum, TokenView)>,
) -> Result<EquationView, Error> {
    match spec_parse_lhs(chip, map, toks) {
        Err(e) => Err(e),
        Ok(lhs) => {
            if toks.len() < 2 {
                Err(Error { code: ErrorCode::BadEquationEOF, line: EOF_LINE })
            } else if !(toks[1].1 is Equals) {
                Err(Error { code: ErrorCode::NoEquals, line: toks[1].0 })
            } else {
                let line_num = toks[1].0;
                match spec_token_pin(chip, map, toks, 2) {
                    Err(e) => Err(e),
                    Ok(p0) => match spec_parse_rhs(chip, map, toks, 3, seq![p0], seq![false]) {
                        Err(e) => Err(e),
                        Ok(pr) => Ok(
                            EquationView { line_num, lhs, rhs: pr.0, is_or: pr.1 },
                        ),
                    },
                }
            }
        },
    }
}

fn parse_pin(chip: Chip, pin_map: &PinMap, toks: &Vec<(LineNum, Token)>, k: usize) -> (r:
    Result<Pin, Error>)
    requires
        map_valid(pin_map.view_map(), chip),
    ensures
        match spec_token_pin(chip, pin_map.view_map(), toks_view(toks@), k as int) {
            Ok(p) => r matches Ok(p2) && p2 == p && 1 <= p.pin <= chip.num_pins(),
            Err(e) => r matches Err(e2) && e2 == e,
        },
{
    if k >= toks.len() {
        return Err(Error { code: ErrorCode::BadEOL, line: EOF_LINE });
    }
    proof {
        assert(toks_view(toks@)[k as int] == (toks@[k as int].0, tok_view(toks@[k as int].1)));
    }
    match &toks[k].1 {
        Token::Item(np, suffix) => {
            match suffix {
                Suffix::Plain => {
                    match lookup_pin(chip, pin_map, &np.name, np.neg) {
                        Err(e) => Err(Error { code: e, line: toks[k].0 }),
                        Ok(p) => {
                            proof {
                                lemma_map_get_valid(pin_map.view_map(), chip, np.name@);
                            }
                            Ok(p)
                        },
                    }
                },
                _ => Err(Error { code: ErrorCode::BadPin, line: toks[k].0 }),
            }
        },
        _ => Err(Error { code: ErrorCode::BadToken, line: toks[k].0 }),
    }
}

fn parse_lhs(chip: Chip, pin_map: &PinMap, toks: &Vec<(LineNum, Token)>) -> (r: Result<LHS, Error>)
    requires
        map_valid(pin_map.view_map(), chip),
    ensures
        match spec_parse_lhs(chip, pin_map.view_map(), toks_view(toks@)) {
            Ok(l) => r matches Ok(l2) && l2 == l && (l matches LHS::Pin((p, _)) ==> 1 <= p.pin
                <= chip.num_pins()),
            Err(e) => r matches Err(e2) && e2 == e,
        },
{
    if toks.len() == 0 {
        return Err(Error { code: ErrorCode::BadToken, line: EOF_LINE });
    }
    proof {
        assert(toks_view(toks@)[0] == (toks@[0].0, tok_view(toks@[0].1)));
    }
    match &toks[0].1 {
        Token::Item(np, suffix) => {
            let is_ar = crate::text::chars_eq_str(&np.name, "AR");
            let is_sp = crate::text::chars_eq_str(&np.name, "SP");
            if matches!(chip, Chip::GAL22V10) && (is_ar || is_sp) {
                let term = if is_ar {
                    SpecialProductTerm::AR
                } else {
                    SpecialProductTerm::SP
                };
                if !matches!(suffix, Suffix::Plain) {
                    Err(Error { code: ErrorCode::SpecialSuffix { term }, line: toks[0].0 })
                } else if np.neg {
                    Err(Error { code: ErrorCode::InvertedSpecial { term }, line: toks[0].0 })
                } else if is_ar {
                    Ok(LHS::Ar)
                } else {
                    Ok(LHS::Sp)
                }
            } else {
                match lookup_pin(chip, pin_map, &np.name, np.neg) {
                    Err(e) => Err(Error { code: e, line: toks[0].0 }),
                    Ok(p) => {
                        proof {
                            lemma_map_get_valid(pin_map.view_map(), chip, np.name@);
                        }
                        Ok(LHS::Pin((p, *suffix)))
                    },
                }
            }
        },
        _ => Err(Error { code: ErrorCode::BadToken, line: EOF_LINE }),
    }
}

fn parse_equation(chip: Chip, pin_map: &PinMap, toks: &Vec<(LineNum, Token)>) -> (r: Result<
    Equation,
    Error,
>)
    requires
        map_valid(pin_map.view_map(), chip),
    ensures
        match spec_parse_equation(chip, pin_map.view_map(), toks_view(toks@)) {
            Ok(ev) => r matches Ok(eq) && eq@ == ev && ev.valid_for(chip),
            Err(e) => r matches Err(e2) && e2 == e,
        },
{
    let ghost tv = toks_view(toks@);
    let ghost m = pin_map.view_map();
    let lhs = match parse_lhs(chip, pin_map, toks) {
        Ok(l) => l,
        Err(e) => {
            return Err(e);
        },
    };
    if toks.len() < 2 {
        return Err(Error { code: ErrorCode::BadEquationEOF, line: EOF_LINE });
    }
    proof {
        assert(tv[1] == (toks@[1].0, tok_view(toks@[1].1)));
    }
    match &toks[1].1 {
        Token::Equals => {},
        _ => {
            return Err(Error { code: ErrorCode::NoEquals, line: toks[1].0 });
        },
    }
    let line_num = toks[1].0;
    let p0 = match parse_pin(chip, pin_map, toks, 2) {
        Ok(p) => p,
        Err(e) => {
            return Err(e);
        },
    };
    let mut rhs: Vec<Pin> = Vec::new();
    rhs.push(p0);
    let mut is_or: Vec<bool> = Vec::new();
    is_or.push(false);
    proof {
        assert(rhs@ =~= seq![p0]);
        assert(is_or@ =~= seq![false]);
    }
    let n = toks.len();
    let mut k: usize = 3;
    while k < n
        invariant
            3 <= k,
            n == toks@.len(),
            tv == toks_view(toks@),
            m == pin_map.view_map(),
            map_valid(m, chip),
            rhs@.len() == is_or@.len(),
            rhs@.len() >= 1,
            is_or@[0] == false,
            forall|x: int| 0 <= x < rhs@.len() ==> 1 <= (#[trigger] rhs@[x]).pin
                <= chip.num_pins(),
            spec_parse_rhs(chip, m, tv, 3, seq![p0], seq![false]) == spec_parse_rhs(
                chip,
                m,
                tv,
                k as int,
                rhs@,
                is_or@,
            ),
        decreases n - k,
    {
        proof {
            assert(tv[k as int] == (toks@[k as int].0, tok_view(toks@[k as int].1)));
        }
        let is_and = matches!(&toks[k].1, Token::And);
        let is_or_tok = matches!(&toks[k].1, Token::Or);
        if !(is_and || is_or_tok) {
            return Err(Error { code: ErrorCode::BadToken, line: toks[k].0 });
        }
        let p = match parse_pin(chip, pin_map, toks, k + 1) {
            Ok(p) => p,
            Err(e) => {
                return Err(e);
            },
        };
        rhs.push(p);
        is_or.push(is_or_tok);
        k = k + 2;
    }
    let eq = Equation { line_num, lhs, rhs, is_or };
    Ok(eq)
}

// ---------------------------------------------------------------------
// Lines, continuation joining, and the top level
// ---------------------------------------------------------------------

/// The next line the parser looks at: blank lines are skipped, and a
/// `DESCRIPTION` line ends the stream.
pub open spec fn spec_next_stream(ls: Seq<Seq<char>>, i: int) -> int
    decreases ls.len() - i when 0 <= i
{
    if i >= ls.len() {
        ls.len() as int
    } else if spec_clean(ls[i]).len() == 0 {
        spec_next_stream(ls, i + 1)
    } else if spec_clean(ls[i]) == "DESCRIPTION"@ {
        ls.len() as int
    } else {
        i
    }
}

proof fn lemma_next_stream_range(ls: Seq<Seq<char>>, i: int)
    requires
        0 <= i,
    ensures
        i <= spec_next_stream(ls, i) <= ls.len() || (i > ls.len() && spec_next_stream(ls, i)
            == ls.len()),
    decreases ls.len() - i,
{
    if i < ls.len() && spec_clean(ls[i]).len() == 0 {
        lemma_next_stream_range(ls, i + 1);
    }
}

fn next_stream(lines: &Vec<String>, i: usize) -> (r: usize)
    ensures
        r as int == spec_next_stream(lines@.map_values(|s: String| s@), i as int),
        r <= lines@.len(),
        i <= r || r == lines@.len(),
    decreases lines@.len() - i,
{
    let ghost ls = lines@.map_values(|s: String| s@);
    let n = lines.len();
    if i >= n {
        return n;
    }
    proof {
        assert(ls[i as int] == lines@[i as int]@);
    }
    let cl = clean_line(&lines[i]);
    if cl.len() == 0 {
        next_stream(lines, i + 1)
    } else if crate::text::chars_eq_str(&cl, "DESCRIPTION") {
        n
    } else {
        i
    }
}

/// Continuation lines gathered onto a logical line: a line ending in
/// an operator takes the next line; a line beginning with an operator
/// joins its predecessor.
pub open spec fn spec_gather(
    ls: Seq<Seq<char>>,
    i: int,
    cur: Seq<(LineNum, TokenView)>,
) -> Result<(Seq<(LineNum, TokenView)>, int), Error>
    decreases ls.len() - i when 0 <= i <= ls.len()
{
    let j = spec_next_stream(ls, i);
    if j >= ls.len() {
        Ok((cur, ls.len() as int))
    } else {
        let trailing = cur.len() > 0 && is_op(cur.last().1);
        match spec_tokenise(spec_clean(ls[j]), 0) {
            Err(e) => {
                if trailing {
                    Err(Error { code: e, line: (j + 1) as usize })
                } else {
                    Ok((cur, i))
                }
            },
            Ok(tvs) => {
                if trailing || (tvs.len() > 0 && is_op(tvs[0])) {
                    let jn = if j + 1 <= i {
                        i + 1
                    } else if j + 1 > ls.len() {
                        ls.len() as int
                    } else {
                        j + 1
                    };
                    spec_gather(ls, jn, cur + with_line((j + 1) as usize, tvs))
                } else {
                    Ok((cur, i))
                }
            },
        }
    }
}

proof fn lemma_gather_range(ls: Seq<Seq<char>>, i: int, cur: Seq<(LineNum, TokenView)>)
    requires
        0 <= i <= ls.len(),
    ensures
        spec_gather(ls, i, cur) matches Ok(pr) ==> i <= pr.1 <= ls.len(),
    decreases ls.len() - i,
{
    lemma_next_stream_range(ls, i);
    let j = spec_next_stream(ls, i);
    if j < ls.len() {
        match spec_tokenise(spec_clean(ls[j]), 0) {
            Err(_) => {},
            Ok(tvs) => {
                let trailing = cur.len() > 0 && is_op(cur.last().1);
                if trailing || (tvs.len() > 0 && is_op(tvs[0])) {
                    let jn = if j + 1 <= i {
                        i + 1
                    } else if j + 1 > ls.len() {
                        ls.len() as int
                    } else {
                        j + 1
                    };
                    lemma_gather_range(ls, jn, cur + with_line((j + 1) as usize, tvs));
                }
            },
        }
    }
}

fn gather(lines: &Vec<String>, i: usize, cur: &mut Vec<(LineNum, Token)>) -> (r: Result<
    usize,
    Error,
>)
    requires
        i <= lines@.len(),
    ensures
        match spec_gather(lines@.map_values(|s: String| s@), i as int, toks_view(old(cur)@)) {
            Ok(pr) => r matches Ok(x) && x as int == pr.1 && toks_view(final(cur)@) == pr.0 && i
                <= x <= lines@.len(),
            Err(e) => r matches Err(e2) && e2 == e,
        },
    decreases lines@.len() - i,
{
    let ghost ls = lines@.map_values(|s: String| s@);
    let trailing = cur.len() > 0 && matches!(cur[cur.len() - 1].1, Token::And | Token::Or);
    proof {
        if cur@.len() > 0 {
            assert(toks_view(cur@)[cur@.len() - 1] == (
                cur@[cur@.len() - 1].0,
                tok_view(cur@[cur@.len() - 1].1),
            ));
            assert(toks_view(cur@).last() == toks_view(cur@)[cur@.len() - 1]);
        }
        assert(trailing == (toks_view(cur@).len() > 0 && is_op(toks_view(cur@).last().1)));
    }
    let j = next_stream(lines, i);
    if j >= lines.len() {
        return Ok(lines.len());
    }
    proof {
        assert(ls[j as int] == lines@[j as int]@);
    }
    let cl = clean_line(&lines[j]);
    match tokenise(j + 1, &cl) {
        Err(e) => {
            if trailing {
                Err(e)
            } else {
                Ok(i)
            }
        },
        Ok(mut t2) => {
            let starts_op = t2.len() > 0 && matches!(t2[0].1, Token::And | Token::Or);
            proof {
                if t2@.len() > 0 {
                    assert(toks_view(t2@)[0] == (t2@[0].0, tok_view(t2@[0].1)));
                }
                let tvs = spec_tokenise(spec_clean(ls[j as int]), 0)->Ok_0;
                assert(starts_op == (tvs.len() > 0 && is_op(tvs[0]))) by {
                    if tvs.len() > 0 {
                        assert(with_line((j + 1) as usize, tvs)[0] == ((j + 1) as usize, tvs[0]));
                    }
                }
            }
            if trailing || starts_op {
                let ghost cur0 = toks_view(cur@);
                cur.append(&mut t2);
                proof {
                    let tvs = spec_tokenise(spec_clean(ls[j as int]), 0)->Ok_0;
                    assert(toks_view(cur@) =~= cur0 + with_line((j + 1) as usize, tvs));
                }
                gather(lines, j + 1, cur)
            } else {
                Ok(i)
            }
        },
    }
}

/// The views of parsed equations.
pub open spec fn eq_views(v: Seq<Equation>) -> Seq<EquationView> {
    v.map_values(|e: Equation| e@)
}

/// The equations of the remaining lines, folded in order.
pub open spec fn spec_parse_eqns(
    chip: Chip,
    map: Seq<(Seq<char>, Pin)>,
    ls: Seq<Seq<char>>,
    i: int,
    acc: Seq<EquationView>,
) -> Result<Seq<EquationView>, Error>
    decreases ls.len() - i when 0 <= i <= ls.len()
{
    let j = spec_next_stream(ls, i);
    if j >= ls.len() {
        Ok(acc)
    } else {
        match spec_tokenise(spec_clean(ls[j]), 0) {
            Err(e) => Err(Error { code: e, line: (j + 1) as usize }),
            Ok(tvs) => {
                let cj = if j + 1 <= i {
                    i + 1
                } else if j + 1 > ls.len() {
                    ls.len() as int
                } else {
                    j + 1
                };
                match spec_gather(ls, cj, with_line((j + 1) as usize, tvs)) {
                    Err(e) => Err(e),
                    Ok(pr) => match spec_parse_equation(chip, map, pr.0) {
                        Err(e) => Err(e),
                        Ok(ev) => {
                            let ci = if pr.1 < cj {
                                cj
                            } else if pr.1 > ls.len() {
                                ls.len() as int
                            } else {
                                pr.1
                            };
                            spec_parse_eqns(chip, map, ls, ci, acc.push(ev))
                        },
                    },
                }
            },
        }
    }
}

fn parse_eqns(
    chip: Chip,
    pin_map: &PinMap,
    lines: &Vec<String>,
    i: usize,
    eqns: &mut Vec<Equation>,
) -> (r: Result<(), Error>)
    requires
        i <= lines@.len(),
        map_valid(pin_map.view_map(), chip),
        forall|x: int| 0 <= x < old(eqns)@.len() ==> (#[trigger] old(eqns)@[x])@.valid_for(chip),
    ensures
        match spec_parse_eqns(
            chip,
            pin_map.view_map(),
            lines@.map_values(|s: String| s@),
            i as int,
            eq_views(old(eqns)@),
        ) {
            Ok(evs) => r matches Ok(u) && eq_views(final(eqns)@) == evs && (forall|x: int|
                0 <= x < final(eqns)@.len() ==> (#[trigger] final(eqns)@[x])@.valid_for(chip)),
            Err(e) => r matches Err(e2) && e2 == e,
        },
    decreases lines@.len() - i,
{
    let ghost ls = lines@.map_values(|s: String| s@);
    let j = next_stream(lines, i);
    if j >= lines.len() {
        return Ok(());
    }
    proof {
        assert(ls[j as int] == lines@[j as int]@);
    }
    let cl = clean_line(&lines[j]);
    let mut cur = match tokenise(j + 1, &cl) {
        Err(e) => {
            return Err(e);
        },
        Ok(t) => t,
    };
    let x = match gather(lines, j + 1, &mut cur) {
        Err(e) => {
            return Err(e);
        },
        Ok(x) => x,
    };
    proof {
        lemma_gather_range(ls, j + 1, toks_view(cur@));
    }
    let eq = match parse_equation(chip, pin_map, &cur) {
        Err(e) => {
            return Err(e);
        },
        Ok(eq) => eq,
    };
    let ghost acc0 = eq_views(eqns@);
    eqns.push(eq);
    proof {
        assert(eq_views(eqns@) =~= acc0.push(eq@));
    }
    parse_eqns(chip, pin_map, lines, x, eqns)
}

/// The first eight bytes of the signature line.
pub open spec fn spec_sig_take(b: Seq<u8>) -> Seq<u8> {
    if b.len() <= 8 {
        b
    } else {
        b.take(8)
    }
}

/// A pin-table name as the rest of the pipeline sees it: the defined
/// polarity folded back in.
pub open spec fn spec_pin_name(p: (Seq<char>, bool)) -> Seq<char> {
    if p.1 {
        seq!['/'] + p.0
    } else {
        p.0
    }
}

/// A pin-definition row parsed and folded into the pin map.
pub open spec fn spec_parse_pins_line(
    map: Seq<(Seq<char>, Pin)>,
    chip: Chip,
    row_num: int,
    line: Seq<char>,
) -> Result<(Seq<(Seq<char>, bool)>, Seq<(Seq<char>, Pin)>), ErrorCode> {
    match spec_tokenise(line, 0) {
        Err(e) => Err(e),
        Ok(tvs) => match spec_pins_of_tokens(tvs) {
            Err(e) => Err(e),
            Ok(ps) => {
                if ps.len() != chip.num_pins() / 2 {
                    Err(
                        ErrorCode::BadPinCount {
                            found: ps.len() as usize,
                            expected: (chip.num_pins() / 2) as usize,
                        },
                    )
                } else {
                    let res = spec_extend_pin_map(
                        map,
                        chip,
                        1 + row_num * (chip.num_pins() / 2) as int,
                        ps,
                    );
                    match res.1 {
                        Some(e) => Err(e),
                        None => Ok((ps, res.0)),
                    }
                }
            },
        },
    }
}

fn parse_pins(
    pin_map: &mut PinMap,
    chip: Chip,
    row_num: usize,
    line_num: LineNum,
    cl: &Vec<char>,
) -> (r: Result<Vec<(Vec<char>, bool)>, Error>)
    requires
        row_num <= 1,
    ensures
        match spec_parse_pins_line(old(pin_map).view_map(), chip, row_num as int, cl@) {
            Ok(pr) => r matches Ok(v) && v@.map_values(|p: (Vec<char>, bool)| (p.0@, p.1)) == pr.0
                && final(pin_map).view_map() == pr.1,
            Err(e) => r matches Err(e2) && e2 == Error { code: e, line: line_num },
        },
{
    let toks = match tokenise(line_num, cl) {
        Err(e) => {
            return Err(e);
        },
        Ok(t) => t,
    };
    proof {
        let tvs = spec_tokenise(cl@, 0)->Ok_0;
        assert(toks_view(toks@).map_values(|t: (LineNum, TokenView)| t.1) =~= tvs) by {
            assert forall|x: int| 0 <= x < tvs.len() implies toks_view(toks@).map_values(
                |t: (LineNum, TokenView)| t.1,
            )[x] == tvs[x] by {
                assert(toks_view(toks@)[x] == with_line(line_num, tvs)[x]);
            }
        }
        assert(toks_view(toks@).map_values(|t: (LineNum, TokenView)| t.1).skip(0) =~= toks_view(
            toks@,
        ).map_values(|t: (LineNum, TokenView)| t.1));
    }
    let pins = match pins_of_tokens(&toks, 0) {
        Err(e) => {
            return Err(Error { code: e, line: line_num });
        },
        Ok(p) => p,
    };
    if pins.len() != chip.num_pins() / 2 {
        return Err(
            Error {
                code: ErrorCode::BadPinCount {
                    found: pins.len(),
                    expected: chip.num_pins() / 2,
                },
                line: line_num,
            },
        );
    }
    match extend_pin_map(&mut pin_map.entries, chip, row_num, &pins) {
        Err(e) => Err(Error { code: e, line: line_num }),
        Ok(u) => Ok(pins),
    }
}

/// What `parse` yields before the end-of-file line numbers are fixed.
pub open spec fn spec_parse_raw(ls: Seq<Seq<char>>) -> Result<ContentView, Error> {
    if ls.len() < 1 {
        Err(Error { code: ErrorCode::BadGALType, line: EOF_LINE })
    } else {
        match Chip::spec_from_name(crate::text::spec_trim(ls[0])) {
            Err(e) => Err(Error { code: e, line: 1 }),
            Ok(chip) => {
                if ls.len() < 2 {
                    Err(Error { code: ErrorCode::BadSigEOF, line: EOF_LINE })
                } else {
                    let sig = spec_sig_take(vstd::utf8::encode_utf8(ls[1]));
                    let j1 = spec_next_stream(ls, 2);
                    if j1 >= ls.len() {
                        Err(Error { code: ErrorCode::BadPinEOF, line: EOF_LINE })
                    } else {
                        match spec_parse_pins_line(
                            Seq::empty(),
                            chip,
                            0,
                            spec_clean(ls[j1]),
                        ) {
                            Err(e) => Err(Error { code: e, line: (j1 + 1) as usize }),
                            Ok(pr1) => {
                                let j2 = spec_next_stream(ls, j1 + 1);
                                if j2 >= ls.len() {
                                    Err(Error { code: ErrorCode::BadPinEOF, line: EOF_LINE })
                                } else {
                                    match spec_parse_pins_line(
                                        pr1.1,
                                        chip,
                                        1,
                                        spec_clean(ls[j2]),
                                    ) {
                                        Err(e) => Err(
                                            Error { code: e, line: (j2 + 1) as usize },
                                        ),
                                        Ok(pr2) => {
                                            match spec_parse_eqns(
                                                chip,
                                                pr2.1,
                                                ls,
                                                j2 + 1,
                                                Seq::empty(),
                                            ) {
                                                Err(e) => Err(e),
                                                Ok(eqns) => Ok(
                                                    ContentView {
                                                        chip,
                                                        sig,
                                                        pins: (pr1.0 + pr2.0).map_values(
                                                            |p: (Seq<char>, bool)| spec_pin_name(p),
                                                        ),
                                                        eqns,
                                                    },
                                                ),
                                            }
                                        },
                                    }
                                }
                            },
                        }
                    }
                }
            },
        }
    }
}

/// What `parse` yields: an end-of-file error reports the last line.
pub open spec fn spec_parse(ls: Seq<Seq<char>>) -> Result<ContentView, Error> {
    match spec_parse_raw(ls) {
        Ok(cv) => Ok(cv),
        Err(e) => Err(
            if e.line == EOF_LINE {
                Error { code: e.code, line: ls.len() as usize }
            } else {
                e
            },
        ),
    }
}


fn fix_eof(e: Error, n: usize) -> (r: Error)
    ensures
        r == (if e.line == EOF_LINE {
            Error { code: e.code, line: n }
        } else {
            e
        }),
{
    if e.line == EOF_LINE {
        Error { code: e.code, line: n }
    } else {
        e
    }
}

fn pin_name_string(p: &(Vec<char>, bool)) -> (r: String)
    ensures
        r@ == spec_pin_name((p.0@, p.1)),
{
    let mut v: Vec<char> = Vec::new();
    if p.1 {
        v.push('/');
    }
    let mut i: usize = 0;
    let n = p.0.len();
    let ghost base = v@;
    while i < n
        invariant
            0 <= i <= n,
            n == p.0@.len(),
            v@ == base + p.0@.take(i as int),
        decreases n - i,
    {
        let c = p.0[i];
        v.push(c);
        proof {
            assert(v@ =~= base + p.0@.take(i + 1));
        }
        i = i + 1;
    }
    proof {
        assert(v@ =~= spec_pin_name((p.0@, p.1)));
    }
    crate::text::chars_to_string(&v)
}

/// Parse a source file, given as its lines, into a `Content`: the
/// chip from line one, the signature bytes from line two, the two
/// pin-definition rows, and the equations up to the end of the file
/// or a `DESCRIPTION` line.  The first violation is reported with
/// its line; an unexpected end of file reports the last line.
pub fn parse(lines: &Vec<String>) -> (r: Result<Content, Error>)
    ensures
        match spec_parse(lines@.map_values(|s: String| s@)) {
            Ok(cv) => r matches Ok(c) && c@ == cv && c@.valid(),
            Err(e) => r matches Err(e2) && e2 == e,
        },
{
    let ghost ls = lines@.map_values(|s: String| s@);
    let n_lines = lines.len();
    if n_lines < 1 {
        return Err(Error { code: ErrorCode::BadGALType, line: n_lines });
    }
    proof {
        assert(ls[0] == lines@[0]@);
    }
    let c0 = crate::text::str_chars(lines[0].as_str());
    let t = crate::text::trim(&c0);
    let ts = crate::text::chars_to_string(&t);
    let chip = match Chip::from_name(ts.as_str()) {
        Ok(c) => c,
        Err(e) => {
            return Err(Error { code: e, line: 1 });
        },
    };
    if n_lines < 2 {
        return Err(Error { code: ErrorCode::BadSigEOF, line: n_lines });
    }
    proof {
        assert(ls[1] == lines@[1]@);
    }
    let sb = lines[1].as_str().as_bytes();
    let m = if sb.len() < 8 {
        sb.len()
    } else {
        8
    };
    let mut sig: Vec<u8> = Vec::new();
    let mut si: usize = 0;
    while si < m
        invariant
            0 <= si <= m,
            m <= sb@.len(),
            sig@ == sb@.take(si as int),
        decreases m - si,
    {
        let b = sb[si];
        sig.push(b);
        proof {
            assert(sig@ =~= sb@.take(si + 1));
        }
        si = si + 1;
    }
    proof {
        assert(sig@ =~= spec_sig_take(vstd::utf8::encode_utf8(ls[1])));
    }
    let mut pin_map = PinMap::new();
    let j1 = next_stream(lines, 2);
    if j1 >= n_lines {
        return Err(Error { code: ErrorCode::BadPinEOF, line: n_lines });
    }
    proof {
        assert(ls[j1 as int] == lines@[j1 as int]@);
        assert(map_valid(pin_map.view_map(), chip));
    }
    let cl1 = clean_line(&lines[j1]);
    let pins1 = match parse_pins(&mut pin_map, chip, 0, j1 + 1, &cl1) {
        Ok(p) => p,
        Err(e) => {
            return Err(fix_eof(e, n_lines));
        },
    };
    proof {
        assert(chip.num_pins() == 20 || chip.num_pins() == 24);
        lemma_extend_map_valid(
            Seq::empty(),
            chip,
            1,
            spec_parse_pins_line(Seq::empty(), chip, 0, spec_clean(ls[j1 as int]))->Ok_0.0,
        );
    }
    let j2 = next_stream(lines, j1 + 1);
    if j2 >= n_lines {
        return Err(Error { code: ErrorCode::BadPinEOF, line: n_lines });
    }
    proof {
        assert(ls[j2 as int] == lines@[j2 as int]@);
    }
    let ghost map1 = pin_map.view_map();
    let cl2 = clean_line(&lines[j2]);
    let pins2 = match parse_pins(&mut pin_map, chip, 1, j2 + 1, &cl2) {
        Ok(p) => p,
        Err(e) => {
            return Err(fix_eof(e, n_lines));
        },
    };
    proof {
        lemma_extend_map_valid(
            map1,
            chip,
            1 + (chip.num_pins() / 2) as int,
            spec_parse_pins_line(map1, chip, 1, spec_clean(ls[j2 as int]))->Ok_0.0,
        );
    }
    let mut eqns: Vec<Equation> = Vec::new();
    proof {
        assert(eq_views(eqns@) =~= Seq::<EquationView>::empty());
    }
    match parse_eqns(chip, &pin_map, lines, j2 + 1, &mut eqns) {
        Err(e) => {
            return Err(fix_eof(e, n_lines));
        },
        Ok(u) => {},
    }
    let mut pins: Vec<String> = Vec::new();
    let n1 = pins1.len();
    let mut k: usize = 0;
    while k < n1
        invariant
            0 <= k <= n1,
            n1 == pins1@.len(),
            pins@.len() == k,
            forall|x: int| 0 <= x < k ==> (#[trigger] pins@[x])@ == spec_pin_name(
                (pins1@[x].0@, pins1@[x].1),
            ),
        decreases n1 - k,
    {
        let s1 = pin_name_string(&pins1[k]);
        pins.push(s1);
        k = k + 1;
    }
    let n2 = pins2.len();
    let mut k2: usize = 0;
    while k2 < n2
        invariant
            0 <= k2 <= n2,
            n2 == pins2@.len(),
            pins@.len() == n1 + k2,
            n1 == pins1@.len(),
            forall|x: int| 0 <= x < n1 ==> (#[trigger] pins@[x])@ == spec_pin_name(
                (pins1@[x].0@, pins1@[x].1),
            ),
            forall|x: int| 0 <= x < k2 ==> (#[trigger] pins@[n1 + x])@ == spec_pin_name(
                (pins2@[x].0@, pins2@[x].1),
            ),
        decreases n2 - k2,
    {
        let s2 = pin_name_string(&pins2[k2]);
        pins.push(s2);
        k2 = k2 + 1;
    }
    let content = Content { chip, sig, pins, eqns };
    proof {
        let cv = spec_parse(ls)->Ok_0;
        let p1 = spec_parse_pins_line(Seq::empty(), chip, 0, spec_clean(ls[j1 as int]))->Ok_0.0;
        let p2 = spec_parse_pins_line(map1, chip, 1, spec_clean(ls[j2 as int]))->Ok_0.0;
        assert(content@.pins =~= (p1 + p2).map_values(|p: (Seq<char>, bool)| spec_pin_name(p)))
            by {
            assert(p1 =~= pins1@.map_values(|p: (Vec<char>, bool)| (p.0@, p.1)));
            assert(p2 =~= pins2@.map_values(|p: (Vec<char>, bool)| (p.0@, p.1)));
            assert(pins@.len() == p1.len() + p2.len());
            assert forall|x: int| 0 <= x < p1.len() + p2.len() implies content@.pins[x] == (p1
                + p2).map_values(|p: (Seq<char>, bool)| spec_pin_name(p))[x] by {
                assert(content@.pins[x] == pins@[x]@);
                assert((p1 + p2).map_values(|p: (Seq<char>, bool)| spec_pin_name(p))[x]
                    == spec_pin_name((p1 + p2)[x]));
                if x < p1.len() {
                    assert((p1 + p2)[x] == p1[x]);
                    assert(p1[x] == pins1@.map_values(|p: (Vec<char>, bool)| (p.0@, p.1))[x]);
                    assert(p1[x] == (pins1@[x].0@, pins1@[x].1));
                    assert(pins@[x]@ == spec_pin_name((pins1@[x].0@, pins1@[x].1)));
                } else {
                    let y = x - p1.len();
                    assert((p1 + p2)[x] == p2[y]);
                    assert(p2[y] == pins2@.map_values(|p: (Vec<char>, bool)| (p.0@, p.1))[y]);
                    assert(p2[y] == (pins2@[y].0@, pins2@[y].1));
                    assert(p1.len() == pins1@.len());
                    assert(pins@[pins1@.len() + y]@ == spec_pin_name((pins2@[y].0@, pins2@[y].1)));
                    assert(pins@[x]@ == spec_pin_name((pins2@[y].0@, pins2@[y].1)));
                }
            }
        }
        assert(content@.eqns =~= cv.eqns);
        assert(content@ == cv);
        assert(content@.valid());
    }
    Ok(content)
}

} // verus!
