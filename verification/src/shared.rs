//! Settings and small types shared by every stage: the level of API checks,
//! the casing of generated names, layered options, number kinds, ranges and
//! network sides.
use vstd::prelude::*;
use std::rc::Rc;
use crate::num::{Num, num_le};
use crate::text::push_char;
use crate::mir::hex_char;
use vstd::arithmetic::power2::pow2;

verus! {

/// How much checking the generated code does on values handed to its API.
#[derive(Clone, Copy, PartialEq, Eq, Structural, Debug)]
pub enum ApiCheck {
    /// No checks (`"none"` in the configuration).
    Off,
    /// Range and UTF-8 checks (`"some"` in the configuration).
    Basic,
    /// Also type checks (`"full"` in the configuration).
    Full,
}

impl Default for ApiCheck {
    fn default() -> (r: ApiCheck)
        ensures
            r == ApiCheck::Basic,
    {
        ApiCheck::Basic
    }
}

/// How the words of a generated name are put together.
#[derive(Clone, Copy, PartialEq, Eq, Structural, Debug)]
pub enum Casing {
    /// `iter all` becomes `iterall`.
    Lower,
    /// `iter all` becomes `iter_all`.
    Snake,
    /// `iter all` becomes `iterAll`.
    Camel,
    /// `iter all` becomes `IterAll`.
    Pascal,
}

impl Default for Casing {
    fn default() -> (r: Casing)
        ensures
            r == Casing::Lower,
    {
        Casing::Lower
    }
}

/// The words of `s`, split at every space; `""` is one empty word and two
/// spaces in a row give an empty word between them.
pub open spec fn split_words(s: Seq<char>) -> Seq<Seq<char>>
    decreases s.len(),
{
    if s.len() == 0 {
        seq![seq![]]
    } else {
        let ws = split_words(s.drop_last());
        if s.last() == ' ' {
            ws.push(seq![])
        } else {
            ws.update(ws.len() - 1, ws.last().push(s.last()))
        }
    }
}

/// ASCII upper case of a character; other characters are kept.
pub open spec fn ascii_upper(c: char) -> char {
    if 'a' <= c && c <= 'z' {
        ((c as int) - 32) as char
    } else {
        c
    }
}

/// A word with its first character in ASCII upper case.
pub open spec fn capitalize(w: Seq<char>) -> Seq<char> {
    if w.len() == 0 {
        w
    } else {
        seq![ascii_upper(w[0])] + w.skip(1)
    }
}

/// The words one after the other.
pub open spec fn concat_words(ws: Seq<Seq<char>>) -> Seq<char>
    decreases ws.len(),
{
    if ws.len() == 0 {
        seq![]
    } else {
        concat_words(ws.drop_last()) + ws.last()
    }
}

/// The words with `sep` between each two.
pub open spec fn join_words(ws: Seq<Seq<char>>, sep: Seq<char>) -> Seq<char>
    decreases ws.len(),
{
    if ws.len() == 0 {
        seq![]
    } else if ws.len() == 1 {
        ws[0]
    } else {
        join_words(ws.drop_last(), sep) + sep + ws.last()
    }
}

/// The first word as it is, each later word capitalized.
pub open spec fn camel_words(ws: Seq<Seq<char>>) -> Seq<char>
    decreases ws.len(),
{
    if ws.len() == 0 {
        seq![]
    } else if ws.len() == 1 {
        ws[0]
    } else {
        camel_words(ws.drop_last()) + capitalize(ws.last())
    }
}

/// Every word capitalized.
pub open spec fn pascal_words(ws: Seq<Seq<char>>) -> Seq<char>
    decreases ws.len(),
{
    if ws.len() == 0 {
        seq![]
    } else {
        pascal_words(ws.drop_last()) + capitalize(ws.last())
    }
}

/// The name that `casing` makes of the words of `ws`.
pub open spec fn casing_words(casing: Casing, ws: Seq<Seq<char>>) -> Seq<char> {
    match casing {
        Casing::Lower => concat_words(ws),
        Casing::Snake => join_words(ws, seq!['_']),
        Casing::Camel => camel_words(ws),
        Casing::Pascal => pascal_words(ws),
    }
}

/// The words that `casing` capitalizes are not empty.
pub open spec fn casing_accepts(casing: Casing, ws: Seq<Seq<char>>) -> bool {
    match casing {
        Casing::Camel => forall|i: int| 1 <= i < ws.len() ==> #[trigger] ws[i].len() > 0,
        Casing::Pascal => forall|i: int| 0 <= i < ws.len() ==> #[trigger] ws[i].len() > 0,
        _ => true,
    }
}

proof fn lemma_split_nonempty(s: Seq<char>)
    ensures
        split_words(s).len() >= 1,
    decreases s.len(),
{
    if s.len() > 0 {
        lemma_split_nonempty(s.drop_last());
    }
}

/// Appending a space starts a new, empty word.
proof fn lemma_casing_space(casing: Casing, ws: Seq<Seq<char>>)
    requires
        ws.len() >= 1,
    ensures
        casing_words(casing, ws.push(seq![])) == casing_words(casing, ws) + if casing == Casing::Snake {
            seq!['_']
        } else {
            seq![]
        },
{
    let ws2 = ws.push(seq![]);
    assert(ws2.drop_last() =~= ws);
    assert(capitalize(seq![]) =~= seq![]);
    match casing {
        Casing::Lower => {
            assert(concat_words(ws2) =~= concat_words(ws));
        },
        Casing::Snake => {},
        Casing::Camel => {
            assert(camel_words(ws2) =~= camel_words(ws));
        },
        Casing::Pascal => {
            assert(pascal_words(ws2) =~= pascal_words(ws));
        },
    }
}

/// Appending any other character extends the last word.
proof fn lemma_casing_char(casing: Casing, ws: Seq<Seq<char>>, c: char)
    requires
        ws.len() >= 1,
    ensures
        ({
            let w = ws.last();
            let ws2 = ws.update(ws.len() - 1, w.push(c));
            let capital = w.len() == 0 && (casing == Casing::Pascal || (casing == Casing::Camel
                && ws.len() > 1));
            casing_words(casing, ws2) == casing_words(casing, ws).push(
                if capital {
                    ascii_upper(c)
                } else {
                    c
                },
            )
        }),
{
    let w = ws.last();
    let ws2 = ws.update(ws.len() - 1, w.push(c));
    assert(ws2.drop_last() =~= ws.drop_last());
    assert(ws2.last() == w.push(c));
    if w.len() == 0 {
        assert(capitalize(w.push(c)) =~= seq![ascii_upper(c)]);
        assert(capitalize(w) =~= seq![]);
    } else {
        assert(capitalize(w.push(c)) =~= capitalize(w).push(c));
    }
    match casing {
        Casing::Lower => {
            assert(concat_words(ws2) =~= concat_words(ws).push(c));
        },
        Casing::Snake => {
            if ws.len() == 1 {
            } else {
                assert(join_words(ws2, seq!['_']) =~= join_words(ws, seq!['_']).push(c));
            }
        },
        Casing::Camel => {
            if ws.len() == 1 {
            } else {
                if w.len() == 0 {
                    assert(camel_words(ws2) =~= camel_words(ws).push(ascii_upper(c)));
                } else {
                    assert(camel_words(ws2) =~= camel_words(ws).push(c));
                }
            }
        },
        Casing::Pascal => {
            if w.len() == 0 {
                assert(pascal_words(ws2) =~= pascal_words(ws).push(ascii_upper(c)));
            } else {
                assert(pascal_words(ws2) =~= pascal_words(ws).push(c));
            }
        },
    }
}

/// ASCII lower case of a character; other characters are kept.
pub open spec fn ascii_lower(c: char) -> char {
    if 'A' <= c && c <= 'Z' {
        ((c as int) + 32) as char
    } else {
        c
    }
}

/// A text with every ASCII letter in lower case.
pub open spec fn lower_text(s: Seq<char>) -> Seq<char> {
    s.map_values(|c: char| ascii_lower(c))
}

/// No word holds an ASCII upper-case letter.
pub open spec fn words_without_upper(ws: Seq<Seq<char>>) -> bool {
    forall|i: int, j: int|
        0 <= i < ws.len() && 0 <= j < ws[i].len() ==> !('A' <= #[trigger] ws[i][j] && ws[i][j] <= 'Z')
}

proof fn lemma_camel_len(ws: Seq<Seq<char>>)
    requires
        ws.len() >= 1,
    ensures
        camel_words(ws).len() >= ws[0].len(),
        ws[0].len() > 0 ==> camel_words(ws)[0] == ws[0][0],
    decreases ws.len(),
{
    if ws.len() > 1 {
        lemma_camel_len(ws.drop_last());
    }
}

proof fn lemma_lower_word(w: Seq<char>)
    requires
        forall|j: int| 0 <= j < w.len() ==> !('A' <= #[trigger] w[j] && w[j] <= 'Z'),
    ensures
        lower_text(w) == w,
        lower_text(capitalize(w)) == w,
{
    assert(lower_text(w) =~= w);
    if w.len() > 0 {
        let c = w[0];
        assert(ascii_lower(ascii_upper(c)) == c);
        assert(lower_text(capitalize(w)) =~= w);
    }
}

/// For words without upper-case letters, the camel-case name in lower case
/// is the lower-case name; and whenever the first word is not empty, the
/// Pascal-case name is the camel-case name with its first character in
/// upper case.
pub proof fn lemma_casings_related(ws: Seq<Seq<char>>)
    requires
        words_without_upper(ws),
    ensures
        lower_text(casing_words(Casing::Camel, ws)) == casing_words(Casing::Lower, ws),
        ws.len() >= 1 && ws[0].len() > 0 ==> casing_words(Casing::Pascal, ws) == capitalize(
            casing_words(Casing::Camel, ws),
        ),
    decreases ws.len(),
{
    if ws.len() == 0 {
        assert(lower_text(seq![]) =~= seq![]);
    } else {
        let dl = ws.drop_last();
        assert(words_without_upper(dl)) by {
            assert forall|i: int, j: int| 0 <= i < dl.len() && 0 <= j < dl[i].len() implies !('A'
                <= #[trigger] dl[i][j] && dl[i][j] <= 'Z') by {
                assert(dl[i] == ws[i]);
            }
        }
        lemma_casings_related(dl);
        let w = ws.last();
        assert forall|j: int| 0 <= j < w.len() implies !('A' <= #[trigger] w[j] && w[j] <= 'Z') by {
            assert(w[j] == ws[ws.len() - 1][j]);
        }
        lemma_lower_word(w);
        if ws.len() == 1 {
            assert(dl =~= Seq::<Seq<char>>::empty());
            assert(pascal_words(dl) =~= seq![]);
            assert(concat_words(dl) =~= seq![]);
            assert(concat_words(ws) =~= w);
            assert(pascal_words(ws) =~= capitalize(w));
        } else {
            assert(lower_text(camel_words(ws)) =~= lower_text(camel_words(dl)) + lower_text(
                capitalize(w),
            ));
            if ws[0].len() > 0 {
                lemma_camel_len(dl);
                let a = camel_words(dl);
                assert(capitalize(a + capitalize(w)) =~= capitalize(a) + capitalize(w));
            }
        }
    }
}

proof fn lemma_split_words_shape(s: Seq<char>)
    requires
        forall|i: int| 0 <= i < s.len() ==> !('A' <= #[trigger] s[i] && s[i] <= 'Z'),
    ensures
        split_words(s).len() >= 1,
        words_without_upper(split_words(s)),
        s.len() > 0 && s[0] != ' ' ==> split_words(s)[0].len() > 0,
    decreases s.len(),
{
    if s.len() > 0 {
        let d = s.drop_last();
        assert forall|i: int| 0 <= i < d.len() implies !('A' <= #[trigger] d[i] && d[i] <= 'Z') by {
            assert(d[i] == s[i]);
        }
        lemma_split_words_shape(d);
        let ws = split_words(d);
        let c = s.last();
        assert(!('A' <= c && c <= 'Z')) by {
            assert(c == s[s.len() - 1]);
        }
        if c == ' ' {
            let ws2 = ws.push(seq![]);
            assert forall|i: int, j: int| 0 <= i < ws2.len() && 0 <= j < ws2[i].len() implies !('A'
                <= #[trigger] ws2[i][j] && ws2[i][j] <= 'Z') by {
                assert(i < ws.len());
                assert(ws2[i] == ws[i]);
            }
            if s.len() > 1 && s[0] != ' ' {
                assert(d[0] == s[0]);
                assert(ws2[0] == ws[0]);
            }
        } else {
            let k = ws.len() - 1;
            let ws2 = ws.update(k, ws.last().push(c));
            assert forall|i: int, j: int| 0 <= i < ws2.len() && 0 <= j < ws2[i].len() implies !('A'
                <= #[trigger] ws2[i][j] && ws2[i][j] <= 'Z') by {
                if i == k {
                    if j < ws[k].len() {
                        assert(ws2[i][j] == ws[k][j]);
                    } else {
                        assert(ws2[i][j] == c);
                    }
                } else {
                    assert(ws2[i] == ws[i]);
                }
            }
            if s.len() > 0 && s[0] != ' ' {
                if k == 0 {
                    assert(ws2[0].len() == ws[0].len() + 1);
                } else {
                    assert(d.len() > 0);
                    assert(d[0] == s[0]);
                    assert(ws2[0] == ws[0]);
                }
            }
        }
    }
}

/// For a text without ASCII upper-case letters: its camel-case name in
/// lower case is its lower-case name; and when it does not start with a
/// space, its Pascal-case name is its camel-case name with the first
/// character in upper case. (`Casing::fmt` makes `casing_words` of
/// `split_words` of its text.)
pub proof fn lemma_fmt_casings(w: Seq<char>)
    requires
        forall|i: int| 0 <= i < w.len() ==> !('A' <= #[trigger] w[i] && w[i] <= 'Z'),
    ensures
        lower_text(casing_words(Casing::Camel, split_words(w))) == casing_words(Casing::Lower, split_words(w)),
        w.len() > 0 && w[0] != ' ' ==> casing_words(Casing::Pascal, split_words(w)) == capitalize(
            casing_words(Casing::Camel, split_words(w)),
        ),
{
    lemma_split_words_shape(w);
    lemma_casings_related(split_words(w));
}

fn upper(c: char) -> (r: char)
    ensures
        r == ascii_upper(c),
{
    if 'a' <= c && c <= 'z' {
        let v: u32 = (c as u32) - 32;
        let b: u8 = v as u8;
        b as char
    } else {
        c
    }
}

impl Casing {
    /// The name made of the space-separated words of `words` in this casing.
    pub fn fmt(&self, words: &str) -> (r: String)
        requires
            casing_accepts(*self, split_words(words@)),
        ensures
            r@ == casing_words(*self, split_words(words@)),
    {
        let mut out = String::new();
        let n = words.unicode_len();
        let mut i: usize = 0;
        let mut last_empty = true;
        let mut first = true;
        proof {
            let ws0: Seq<Seq<char>> = seq![seq![]];
            assert(words@.take(0) =~= seq![]);
            assert(ws0.drop_last() =~= Seq::<Seq<char>>::empty());
            assert(ws0.last() =~= seq![]);
            assert(concat_words(Seq::<Seq<char>>::empty()) =~= seq![]);
            assert(pascal_words(Seq::<Seq<char>>::empty()) =~= seq![]);
            assert(concat_words(ws0) =~= seq![]);
            assert(pascal_words(ws0) =~= seq![]);
        }
        while i < n
            invariant
                n == words@.len(),
                i <= n,
                split_words(words@.take(i as int)).len() >= 1,
                out@ == casing_words(*self, split_words(words@.take(i as int))),
                last_empty == (split_words(words@.take(i as int)).last().len() == 0),
                first == (split_words(words@.take(i as int)).len() == 1),
            decreases n - i,
        {
            let c = words.get_char(i);
            let ghost pre = words@.take(i as int);
            let ghost ws = split_words(pre);
            assert(words@.take(i + 1).drop_last() =~= pre);
            assert(words@.take(i + 1).last() == c);
            if c == ' ' {
                proof {
                    lemma_casing_space(*self, ws);
                }
                if *self == Casing::Snake {
                    push_char(&mut out, '_');
                }
                last_empty = true;
                first = false;
            } else {
                proof {
                    lemma_casing_char(*self, ws, c);
                }
                let capital = last_empty && (*self == Casing::Pascal || (*self == Casing::Camel
                    && !first));
                if capital {
                    push_char(&mut out, upper(c));
                } else {
                    push_char(&mut out, c);
                }
                last_empty = false;
            }
            i += 1;
        }
        assert(words@.take(n as int) =~= words@);
        out
    }
}

/// Options of a table of the configuration, each unset one taken from the
/// parent, and from the defaults where there is no parent.
#[derive(Clone)]
pub struct Options {
    parent: Option<Rc<Options>>,
    apicheck: Option<ApiCheck>,
    casing: Option<Casing>,
}

impl Options {
    /// The level of API checks in effect.
    pub closed spec fn spec_apicheck(self) -> ApiCheck
        decreases self,
    {
        match self.apicheck {
            Some(a) => a,
            None => match self.parent {
                Some(p) => (*p).spec_apicheck(),
                None => ApiCheck::Basic,
            },
        }
    }

    /// The casing in effect.
    pub closed spec fn spec_casing(self) -> Casing
        decreases self,
    {
        match self.casing {
            Some(c) => c,
            None => match self.parent {
                Some(p) => (*p).spec_casing(),
                None => Casing::Lower,
            },
        }
    }

    pub closed spec fn parent(self) -> Option<Options> {
        match self.parent {
            Some(p) => Some(*p),
            None => None,
        }
    }

    pub closed spec fn own_apicheck(self) -> Option<ApiCheck> {
        self.apicheck
    }

    pub closed spec fn own_casing(self) -> Option<Casing> {
        self.casing
    }

    /// The level in effect is the options' own level when it is set, else
    /// the one in effect for the parent, else the default (`Basic`).
    pub proof fn lemma_apicheck_resolution(self)
        ensures
            self.spec_apicheck() == match self.own_apicheck() {
                Some(a) => a,
                None => match self.parent() {
                    Some(p) => p.spec_apicheck(),
                    None => ApiCheck::Basic,
                },
            },
    {
    }

    /// The casing in effect is the options' own casing when it is set, else
    /// the one in effect for the parent, else the default (`Lower`).
    pub proof fn lemma_casing_resolution(self)
        ensures
            self.spec_casing() == match self.own_casing() {
                Some(c) => c,
                None => match self.parent() {
                    Some(p) => p.spec_casing(),
                    None => Casing::Lower,
                },
            },
    {
    }

    /// The options with the level of API checks set.
    pub closed spec fn spec_with_apicheck(self, apicheck: ApiCheck) -> Options {
        Options { parent: self.parent, apicheck: Some(apicheck), casing: self.casing }
    }

    /// The options with the casing set.
    pub closed spec fn spec_with_casing(self, casing: Casing) -> Options {
        Options { parent: self.parent, apicheck: self.apicheck, casing: Some(casing) }
    }

    /// Each setter fixes its own option and leaves the other one in effect as
    /// it was; setting the level and setting the casing commute.
    pub proof fn lemma_setters(self, a: ApiCheck, c: Casing)
        ensures
            self.spec_with_apicheck(a).spec_apicheck() == a,
            self.spec_with_apicheck(a).spec_casing() == self.spec_casing(),
            self.spec_with_casing(c).spec_casing() == c,
            self.spec_with_casing(c).spec_apicheck() == self.spec_apicheck(),
            self.spec_with_apicheck(a).spec_with_casing(c) == self.spec_with_casing(
                c,
            ).spec_with_apicheck(a),
    {
    }

    /// Options that set nothing and have no parent.
    pub fn new() -> (r: Options)
        ensures
            r.parent() == None::<Options>,
            r.own_apicheck() == None::<ApiCheck>,
            r.own_casing() == None::<Casing>,
    {
        Options { parent: None, apicheck: None, casing: None }
    }

    /// The same options, falling back to `parent`.
    pub fn with_parent(self, parent: Rc<Options>) -> (r: Options)
        ensures
            r.parent() == Some(*parent),
            r.own_apicheck() == self.own_apicheck(),
            r.own_casing() == self.own_casing(),
    {
        Options { parent: Some(parent), apicheck: self.apicheck, casing: self.casing }
    }

    /// The same options with the level of API checks set.
    pub fn with_apicheck(self, apicheck: ApiCheck) -> (r: Options)
        ensures
            r.parent() == self.parent(),
            r.own_apicheck() == Some(apicheck),
            r.own_casing() == self.own_casing(),
            r == self.spec_with_apicheck(apicheck),
    {
        Options { parent: self.parent, apicheck: Some(apicheck), casing: self.casing }
    }

    /// The same options with the casing set.
    pub fn with_casing(self, casing: Casing) -> (r: Options)
        ensures
            r.parent() == self.parent(),
            r.own_apicheck() == self.own_apicheck(),
            r.own_casing() == Some(casing),
            r == self.spec_with_casing(casing),
    {
        Options { parent: self.parent, apicheck: self.apicheck, casing: Some(casing) }
    }

    /// The level of API checks in effect: the own one, else the parent's,
    /// else the default.
    pub fn apicheck(&self) -> (r: ApiCheck)
        ensures
            r == self.spec_apicheck(),
        decreases self,
    {
        match self.apicheck {
            Some(a) => a,
            None => match &self.parent {
                Some(p) => p.apicheck(),
                None => ApiCheck::Basic,
            },
        }
    }

    /// The casing in effect: the own one, else the parent's, else the
    /// default.
    pub fn casing(&self) -> (r: Casing)
        ensures
            r == self.spec_casing(),
        decreases self,
    {
        match self.casing {
            Some(c) => c,
            None => match &self.parent {
                Some(p) => p.casing(),
                None => Casing::Lower,
            },
        }
    }
}

impl Default for Options {
    fn default() -> (r: Options)
        ensures
            r.parent() == None::<Options>,
            r.own_apicheck() == None::<ApiCheck>,
            r.own_casing() == None::<Casing>,
    {
        Options::new()
    }
}

/// The kind of number that a value is written as.
#[derive(Clone, Copy, PartialEq, Eq, Structural, Debug)]
pub enum NumberKind {
    U8,
    U16,
    U24,
    U32,
    I8,
    I16,
    I24,
    I32,
    F32,
    F64,
    NaNF32,
    NaNF64,
}

impl NumberKind {
    /// The number of bytes that a value of this kind takes in a buffer.
    pub open spec fn spec_size(self) -> u32 {
        match self {
            NumberKind::U8 | NumberKind::I8 => 1,
            NumberKind::U16 | NumberKind::I16 => 2,
            NumberKind::U24 | NumberKind::I24 => 4,
            NumberKind::U32 | NumberKind::I32 => 4,
            NumberKind::F32 | NumberKind::NaNF32 => 4,
            NumberKind::F64 | NumberKind::NaNF64 => 8,
        }
    }

    /// The number of bytes that a value of this kind takes in a buffer.
    pub fn size(&self) -> (r: u32)
        ensures
            r == self.spec_size(),
    {
        match self {
            NumberKind::U8 | NumberKind::I8 => 1,
            NumberKind::U16 | NumberKind::I16 => 2,
            NumberKind::U24 | NumberKind::I24 => 4,
            NumberKind::U32 | NumberKind::I32 => 4,
            NumberKind::F32 | NumberKind::NaNF32 => 4,
            NumberKind::F64 | NumberKind::NaNF64 => 8,
        }
    }

    /// The least value of the kind, as the `f64` that stands for it.
    pub open spec fn spec_min(self) -> Num {
        match self {
            NumberKind::U8 | NumberKind::U16 | NumberKind::U24 | NumberKind::U32 => whole(false, 0),
            NumberKind::I8 => whole(true, 128),
            NumberKind::I16 => whole(true, 32768),
            NumberKind::I24 => whole(true, 8388608),
            NumberKind::I32 => whole(true, 2147483648),
            NumberKind::F32 | NumberKind::NaNF32 => Num::Finite { neg: true, digits: 34028234663852886, exp: 22 },
            NumberKind::F64 | NumberKind::NaNF64 => Num::Finite { neg: true, digits: 17976931348623157, exp: 292 },
        }
    }

    /// The greatest value of the kind, as the `f64` that stands for it.
    pub open spec fn spec_max(self) -> Num {
        match self {
            NumberKind::U8 => whole(false, 255),
            NumberKind::U16 => whole(false, 65535),
            NumberKind::U24 => whole(false, 16777215),
            NumberKind::U32 => whole(false, 4294967295),
            NumberKind::I8 => whole(false, 127),
            NumberKind::I16 => whole(false, 32767),
            NumberKind::I24 => whole(false, 8388607),
            NumberKind::I32 => whole(false, 2147483647),
            NumberKind::F32 | NumberKind::NaNF32 => Num::Finite { neg: false, digits: 34028234663852886, exp: 22 },
            NumberKind::F64 | NumberKind::NaNF64 => Num::Finite { neg: false, digits: 17976931348623157, exp: 292 },
        }
    }

    /// The least value of the kind.
    pub fn min(&self) -> (r: Num)
        ensures
            r == self.spec_min(),
    {
        match self {
            NumberKind::U8 | NumberKind::U16 | NumberKind::U24 | NumberKind::U32 => Num::from_u64(0),
            NumberKind::I8 => Num::from_i64(-128),
            NumberKind::I16 => Num::from_i64(-32768),
            NumberKind::I24 => Num::from_i64(-8388608),
            NumberKind::I32 => Num::from_i64(-2147483648),
            NumberKind::F32 | NumberKind::NaNF32 => Num::Finite { neg: true, digits: 34028234663852886, exp: 22 },
            NumberKind::F64 | NumberKind::NaNF64 => Num::Finite { neg: true, digits: 17976931348623157, exp: 292 },
        }
    }

    /// The greatest value of the kind.
    pub fn max(&self) -> (r: Num)
        ensures
            r == self.spec_max(),
    {
        match self {
            NumberKind::U8 => Num::from_u64(255),
            NumberKind::U16 => Num::from_u64(65535),
            NumberKind::U24 => Num::from_u64(16777215),
            NumberKind::U32 => Num::from_u64(4294967295),
            NumberKind::I8 => Num::from_u64(127),
            NumberKind::I16 => Num::from_u64(32767),
            NumberKind::I24 => Num::from_u64(8388607),
            NumberKind::I32 => Num::from_u64(2147483647),
            NumberKind::F32 | NumberKind::NaNF32 => Num::Finite { neg: false, digits: 34028234663852886, exp: 22 },
            NumberKind::F64 | NumberKind::NaNF64 => Num::Finite { neg: false, digits: 17976931348623157, exp: 292 },
        }
    }
}

/// A whole number as a `Num`.
pub open spec fn whole(neg: bool, v: u64) -> Num {
    Num::Finite { neg, digits: v, exp: 0 }
}

/// Optional bounds of a value.
#[derive(Clone, Copy, PartialEq, Eq, Structural, Debug)]
pub struct Range {
    pub min: Option<Num>,
    pub max: Option<Num>,
}

impl Range {
    pub fn new(min: Option<Num>, max: Option<Num>) -> (r: Range)
        ensures
            r == (Range { min, max }),
    {
        Range { min, max }
    }

    /// The one value the range allows, when both bounds are given and
    /// equal as `f64`s: the lower bound.
    pub open spec fn spec_exact(self) -> Option<Num> {
        match (self.min, self.max) {
            (Some(a), Some(b)) => if num_le(a, b) && num_le(b, a) {
                Some(a)
            } else {
                None
            },
            _ => None,
        }
    }

    /// The smallest unsigned kind that holds the upper bound (the greatest
    /// `f64` when there is none): `u8`, `u16`, else `u32`.
    pub open spec fn spec_kind(self) -> NumberKind {
        let max = match self.max {
            Some(m) => m,
            None => NumberKind::F64.spec_max(),
        };
        if num_le(max, whole(false, 255)) {
            NumberKind::U8
        } else if num_le(max, whole(false, 65535)) {
            NumberKind::U16
        } else {
            NumberKind::U32
        }
    }

    /// A value up to the upper bound fits the kind chosen for the range: when
    /// the bound is at most the greatest `u32`, it is at most the greatest
    /// value of `kind()`.
    pub proof fn lemma_kind_holds_bound(self, m: Num)
        requires
            self.max == Some(m),
            num_le(m, whole(false, 4294967295)),
        ensures
            num_le(m, self.spec_kind().spec_max()),
    {
    }

    /// The one value the range allows, if it allows just one.
    pub fn exact(&self) -> (r: Option<Num>)
        ensures
            r == self.spec_exact(),
    {
        match (self.min, self.max) {
            (Some(a), Some(b)) => if a.le(&b) && b.le(&a) {
                Some(a)
            } else {
                None
            },
            _ => None,
        }
    }

    /// The kind that a value up to the upper bound is written as.
    pub fn kind(&self) -> (r: NumberKind)
        ensures
            r == self.spec_kind(),
    {
        let max = match self.max {
            Some(m) => m,
            None => NumberKind::F64.max(),
        };
        if max.le(&Num::from_u64(255)) {
            NumberKind::U8
        } else if max.le(&Num::from_u64(65535)) {
            NumberKind::U16
        } else {
            NumberKind::U32
        }
    }
}

/// The side of the network that sends an event.
#[derive(Clone, Copy, PartialEq, Eq, Structural, Debug)]
pub enum NetworkSide {
    Server,
    Client,
}

/// The hexadecimal digit `i` (0 is the most significant) of a 128-bit
/// value.
pub open spec fn nibble(v: u128, i: int) -> int {
    ((v as nat) / pow2((4 * (31 - i)) as nat)) as int % 16
}

/// The hyphenated lower-case form of a UUID: 32 hexadecimal digits, most
/// significant first, in groups of 8, 4, 4, 4 and 12 separated by `-`.
pub open spec fn uuid_text(v: u128) -> Seq<char> {
    Seq::new(
        36,
        |p: int|
            if p == 8 || p == 13 || p == 18 || p == 23 {
                '-'
            } else {
                let skipped: int = if p < 8 {
                    0
                } else if p < 13 {
                    1
                } else if p < 18 {
                    2
                } else if p < 23 {
                    3
                } else {
                    4
                };
                hex_char(nibble(v, p - skipped))
            },
    )
}

/// `uuid::Uuid::new_v4`, as its 128-bit value. The crate takes random bits
/// and sets the version nibble to 4 and the two variant bits to `10`; the
/// value is otherwise left open.
#[verifier::external_body]
fn uuid_new_v4() -> (r: u128)
    ensures
        nibble(r, 12) == 4,
        nibble(r, 16) / 4 == 2,
{
    uuid::Uuid::new_v4().as_u128()
}

/// `uuid::Uuid::from_u128` followed by `hyphenated().to_string()`: the
/// crate writes the 16 big-endian bytes as lower-case hexadecimal digits
/// with hyphens after the 4th, 6th, 8th and 10th byte.
#[verifier::external_body]
fn uuid_hyphenated(v: u128) -> (r: String)
    ensures
        r@ == uuid_text(v),
{
    uuid::Uuid::from_u128(v).hyphenated().to_string()
}

/// A remote: the channel that a group of events goes through, named by a
/// UUID.
#[derive(Clone, Copy, PartialEq, Eq, Structural, Debug)]
pub struct Remote {
    pub uuid: u128,
}

impl Remote {
    /// A remote with a new random (version 4) UUID.
    pub fn new() -> (r: Remote)
        ensures
            nibble(r.uuid, 12) == 4,
            nibble(r.uuid, 16) / 4 == 2,
    {
        Remote { uuid: uuid_new_v4() }
    }

    /// The name of the remote: its UUID in hyphenated form.
    pub fn name(&self) -> (r: String)
        ensures
            r@ == uuid_text(self.uuid),
    {
        uuid_hyphenated(self.uuid)
    }
}

} // verus!
