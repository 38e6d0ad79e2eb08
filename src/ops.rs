//! The operator catalogs: display tokens, keywords and precedence tiers.
use vstd::prelude::*;

use crate::lexer::string_of;

verus! {

/// The prefix operators.
#[derive(Debug, Clone, Copy, PartialEq, Eq, Hash, Structural)]
pub enum UnaryOpCode {
    Plus,
    Neg,
    Not,
    Sin,
    Cos,
    Tan,
    Arcsin,
    Arccos,
    Arctan,
    Log,
    Exp,
    Random,
    Round,
    Floor,
    ToUpper,
    ToLower,
    IsDigit,
    IsWordChar,
    ToFloat,
}

/// The prefix operators, under the name the expression layer uses.
pub type UnaryCode = UnaryOpCode;

/// The infix operators.
#[derive(Debug, Clone, Copy, PartialEq, Eq, Hash, Structural)]
pub enum BinaryCode {
    Pow,
    Search,
    Mul,
    Div,
    Mod,
    IntDiv,
    Add,
    Sub,
    And,
    Or,
    Eq,
    Ne,
    Gt,
    Ge,
    Lt,
    Le,
}

/// The display token of a prefix operator; keyword operators carry the
/// separating space.
pub open spec fn unary_token(op: UnaryOpCode) -> Seq<char> {
    match op {
        UnaryOpCode::Plus => seq!['+'],
        UnaryOpCode::Neg => seq!['-'],
        UnaryOpCode::Not => seq!['N', 'E', 'M', ' '],
        UnaryOpCode::Sin => seq!['S', 'I', 'N', ' '],
        UnaryOpCode::Cos => seq!['C', 'O', 'S', ' '],
        UnaryOpCode::Tan => seq!['T', 'A', 'N', ' '],
        UnaryOpCode::Arcsin => seq!['A', 'R', 'C', 'S', 'I', 'N', ' '],
        UnaryOpCode::Arccos => seq!['A', 'R', 'C', 'C', 'O', 'S', ' '],
        UnaryOpCode::Arctan => seq!['A', 'R', 'C', 'T', 'A', 'N', ' '],
        UnaryOpCode::Log => seq!['L', 'O', 'G', ' '],
        UnaryOpCode::Exp => seq!['E', 'X', 'P', ' '],
        UnaryOpCode::Random => seq!['R', 'N', 'D', ' '],
        UnaryOpCode::Round => seq!['R', 'O', 'U', 'N', 'D', ' '],
        UnaryOpCode::Floor => seq!['I', 'N', 'T', ' '],
        UnaryOpCode::ToUpper => seq!['U', 'P', 'P', 'E', 'R', ' '],
        UnaryOpCode::ToLower => seq!['L', 'O', 'W', 'E', 'R', ' '],
        UnaryOpCode::IsDigit => seq!['D', 'I', 'G', 'I', 'T', ' '],
        UnaryOpCode::IsWordChar => seq!['C', 'H', 'A', 'R', ' '],
        UnaryOpCode::ToFloat => seq!['F', 'L', 'O', 'A', 'T', ' '],
    }
}

/// The display token of an infix operator; keyword operators carry
/// separating spaces on both sides.
pub open spec fn binary_token(op: BinaryCode) -> Seq<char> {
    match op {
        BinaryCode::Pow => seq!['^'],
        BinaryCode::Search => seq!['@'],
        BinaryCode::Mul => seq!['*'],
        BinaryCode::Div => seq!['/'],
        BinaryCode::Mod => seq![' ', 'M', 'O', 'D', ' '],
        BinaryCode::IntDiv => seq![' ', 'D', 'I', 'V', ' '],
        BinaryCode::Add => seq!['+'],
        BinaryCode::Sub => seq!['-'],
        BinaryCode::And => seq![' ', 'A', 'N', 'D', ' '],
        BinaryCode::Or => seq![' ', 'O', 'R', ' '],
        BinaryCode::Eq => seq!['='],
        BinaryCode::Ne => seq!['/', '='],
        BinaryCode::Gt => seq!['>'],
        BinaryCode::Ge => seq!['>', '='],
        BinaryCode::Lt => seq!['<'],
        BinaryCode::Le => seq!['<', '='],
    }
}

/// The precedence tier of an infix operator: 0 binds tightest.
pub open spec fn tier(op: BinaryCode) -> nat {
    match op {
        BinaryCode::Pow | BinaryCode::Search => 0,
        BinaryCode::Mul | BinaryCode::Div | BinaryCode::Mod | BinaryCode::IntDiv => 1,
        BinaryCode::Add | BinaryCode::Sub => 2,
        BinaryCode::And | BinaryCode::Or => 3,
        BinaryCode::Eq | BinaryCode::Ne | BinaryCode::Gt | BinaryCode::Ge | BinaryCode::Lt | BinaryCode::Le => 4,
    }
}

/// The keyword that names a prefix operator in source text: its token
/// without the separating space.
pub open spec fn unary_keyword(op: UnaryOpCode) -> Seq<char> {
    match op {
        UnaryOpCode::Plus => seq!['+'],
        UnaryOpCode::Neg => seq!['-'],
        UnaryOpCode::Not => seq!['N', 'E', 'M'],
        UnaryOpCode::Sin => seq!['S', 'I', 'N'],
        UnaryOpCode::Cos => seq!['C', 'O', 'S'],
        UnaryOpCode::Tan => seq!['T', 'A', 'N'],
        UnaryOpCode::Arcsin => seq!['A', 'R', 'C', 'S', 'I', 'N'],
        UnaryOpCode::Arccos => seq!['A', 'R', 'C', 'C', 'O', 'S'],
        UnaryOpCode::Arctan => seq!['A', 'R', 'C', 'T', 'A', 'N'],
        UnaryOpCode::Log => seq!['L', 'O', 'G'],
        UnaryOpCode::Exp => seq!['E', 'X', 'P'],
        UnaryOpCode::Random => seq!['R', 'N', 'D'],
        UnaryOpCode::Round => seq!['R', 'O', 'U', 'N', 'D'],
        UnaryOpCode::Floor => seq!['I', 'N', 'T'],
        UnaryOpCode::ToUpper => seq!['U', 'P', 'P', 'E', 'R'],
        UnaryOpCode::ToLower => seq!['L', 'O', 'W', 'E', 'R'],
        UnaryOpCode::IsDigit => seq!['D', 'I', 'G', 'I', 'T'],
        UnaryOpCode::IsWordChar => seq!['C', 'H', 'A', 'R'],
        UnaryOpCode::ToFloat => seq!['F', 'L', 'O', 'A', 'T'],
    }
}

/// The keyword that names an infix operator in source text: its token
/// without the separating spaces.
pub open spec fn binary_keyword(op: BinaryCode) -> Seq<char> {
    match op {
        BinaryCode::Pow => seq!['^'],
        BinaryCode::Search => seq!['@'],
        BinaryCode::Mul => seq!['*'],
        BinaryCode::Div => seq!['/'],
        BinaryCode::Mod => seq!['M', 'O', 'D'],
        BinaryCode::IntDiv => seq!['D', 'I', 'V'],
        BinaryCode::Add => seq!['+'],
        BinaryCode::Sub => seq!['-'],
        BinaryCode::And => seq!['A', 'N', 'D'],
        BinaryCode::Or => seq!['O', 'R'],
        BinaryCode::Eq => seq!['='],
        BinaryCode::Ne => seq!['/', '='],
        BinaryCode::Gt => seq!['>'],
        BinaryCode::Ge => seq!['>', '='],
        BinaryCode::Lt => seq!['<'],
        BinaryCode::Le => seq!['<', '='],
    }
}

/// The prefix operator named by `t`, if any.
pub open spec fn unary_of_keyword(t: Seq<char>) -> Option<UnaryOpCode> {
    if t == unary_keyword(UnaryOpCode::Plus) {
        Some(UnaryOpCode::Plus)
    } else if t == unary_keyword(UnaryOpCode::Neg) {
        Some(UnaryOpCode::Neg)
    } else if t == unary_keyword(UnaryOpCode::Not) {
        Some(UnaryOpCode::Not)
    } else if t == unary_keyword(UnaryOpCode::Sin) {
        Some(UnaryOpCode::Sin)
    } else if t == unary_keyword(UnaryOpCode::Cos) {
        Some(UnaryOpCode::Cos)
    } else if t == unary_keyword(UnaryOpCode::Tan) {
        Some(UnaryOpCode::Tan)
    } else if t == unary_keyword(UnaryOpCode::Arcsin) {
        Some(UnaryOpCode::Arcsin)
    } else if t == unary_keyword(UnaryOpCode::Arccos) {
        Some(UnaryOpCode::Arccos)
    } else if t == unary_keyword(UnaryOpCode::Arctan) {
        Some(UnaryOpCode::Arctan)
    } else if t == unary_keyword(UnaryOpCode::Log) {
        Some(UnaryOpCode::Log)
    } else if t == unary_keyword(UnaryOpCode::Exp) {
        Some(UnaryOpCode::Exp)
    } else if t == unary_keyword(UnaryOpCode::Random) {
        Some(UnaryOpCode::Random)
    } else if t == unary_keyword(UnaryOpCode::Round) {
        Some(UnaryOpCode::Round)
    } else if t == unary_keyword(UnaryOpCode::Floor) {
        Some(UnaryOpCode::Floor)
    } else if t == unary_keyword(UnaryOpCode::ToUpper) {
        Some(UnaryOpCode::ToUpper)
    } else if t == unary_keyword(UnaryOpCode::ToLower) {
        Some(UnaryOpCode::ToLower)
    } else if t == unary_keyword(UnaryOpCode::IsDigit) {
        Some(UnaryOpCode::IsDigit)
    } else if t == unary_keyword(UnaryOpCode::IsWordChar) {
        Some(UnaryOpCode::IsWordChar)
    } else if t == unary_keyword(UnaryOpCode::ToFloat) {
        Some(UnaryOpCode::ToFloat)
    } else {
        None
    }
}

/// The infix operator named by `t`, if any.
pub open spec fn binary_of_keyword(t: Seq<char>) -> Option<BinaryCode> {
    if t == binary_keyword(BinaryCode::Pow) {
        Some(BinaryCode::Pow)
    } else if t == binary_keyword(BinaryCode::Search) {
        Some(BinaryCode::Search)
    } else if t == binary_keyword(BinaryCode::Mul) {
        Some(BinaryCode::Mul)
    } else if t == binary_keyword(BinaryCode::Div) {
        Some(BinaryCode::Div)
    } else if t == binary_keyword(BinaryCode::Mod) {
        Some(BinaryCode::Mod)
    } else if t == binary_keyword(BinaryCode::IntDiv) {
        Some(BinaryCode::IntDiv)
    } else if t == binary_keyword(BinaryCode::Add) {
        Some(BinaryCode::Add)
    } else if t == binary_keyword(BinaryCode::Sub) {
        Some(BinaryCode::Sub)
    } else if t == binary_keyword(BinaryCode::And) {
        Some(BinaryCode::And)
    } else if t == binary_keyword(BinaryCode::Or) {
        Some(BinaryCode::Or)
    } else if t == binary_keyword(BinaryCode::Eq) {
        Some(BinaryCode::Eq)
    } else if t == binary_keyword(BinaryCode::Ne) {
        Some(BinaryCode::Ne)
    } else if t == binary_keyword(BinaryCode::Gt) {
        Some(BinaryCode::Gt)
    } else if t == binary_keyword(BinaryCode::Ge) {
        Some(BinaryCode::Ge)
    } else if t == binary_keyword(BinaryCode::Lt) {
        Some(BinaryCode::Lt)
    } else if t == binary_keyword(BinaryCode::Le) {
        Some(BinaryCode::Le)
    } else {
        None
    }
}

/// Whether `v[lo..hi]` is the text `t`.
pub fn same_text(v: &Vec<char>, lo: usize, hi: usize, t: &Vec<char>) -> (r: bool)
    requires
        lo <= hi <= v@.len(),
    ensures
        r == (v@.subrange(lo as int, hi as int) == t@),
{
    if hi - lo != t.len() {
        return false;
    }
    let mut i: usize = 0;
    while i < t.len()
        invariant
            lo <= hi <= v@.len(),
            hi - lo == t@.len(),
            i <= t@.len(),
            forall|j: int| 0 <= j < i ==> v@[lo + j] == t@[j],
        decreases t@.len() - i,
    {
        if v[lo + i] != t[i] {
            assert(v@.subrange(lo as int, hi as int)[i as int] != t@[i as int]);
            return false;
        }
        i = i + 1;
    }
    assert(v@.subrange(lo as int, hi as int) =~= t@);
    true
}

impl UnaryOpCode {
    /// The characters of the display token.
    pub fn token_chars(&self) -> (r: Vec<char>)
        ensures
            r@ == unary_token(*self),
    {
        match self {
            UnaryOpCode::Plus => vec!['+'],
            UnaryOpCode::Neg => vec!['-'],
            UnaryOpCode::Not => vec!['N', 'E', 'M', ' '],
            UnaryOpCode::Sin => vec!['S', 'I', 'N', ' '],
            UnaryOpCode::Cos => vec!['C', 'O', 'S', ' '],
            UnaryOpCode::Tan => vec!['T', 'A', 'N', ' '],
            UnaryOpCode::Arcsin => vec!['A', 'R', 'C', 'S', 'I', 'N', ' '],
            UnaryOpCode::Arccos => vec!['A', 'R', 'C', 'C', 'O', 'S', ' '],
            UnaryOpCode::Arctan => vec!['A', 'R', 'C', 'T', 'A', 'N', ' '],
            UnaryOpCode::Log => vec!['L', 'O', 'G', ' '],
            UnaryOpCode::Exp => vec!['E', 'X', 'P', ' '],
            UnaryOpCode::Random => vec!['R', 'N', 'D', ' '],
            UnaryOpCode::Round => vec!['R', 'O', 'U', 'N', 'D', ' '],
            UnaryOpCode::Floor => vec!['I', 'N', 'T', ' '],
            UnaryOpCode::ToUpper => vec!['U', 'P', 'P', 'E', 'R', ' '],
            UnaryOpCode::ToLower => vec!['L', 'O', 'W', 'E', 'R', ' '],
            UnaryOpCode::IsDigit => vec!['D', 'I', 'G', 'I', 'T', ' '],
            UnaryOpCode::IsWordChar => vec!['C', 'H', 'A', 'R', ' '],
            UnaryOpCode::ToFloat => vec!['F', 'L', 'O', 'A', 'T', ' '],
        }
    }

    /// The display token.
    pub fn token(&self) -> (r: String)
        ensures
            r@ == unary_token(*self),
    {
        let t = self.token_chars();
        string_of(&t, 0, t.len())
    }

    /// The characters of the keyword.
    pub fn keyword_chars(&self) -> (r: Vec<char>)
        ensures
            r@ == unary_keyword(*self),
    {
        match self {
            UnaryOpCode::Plus => vec!['+'],
            UnaryOpCode::Neg => vec!['-'],
            UnaryOpCode::Not => vec!['N', 'E', 'M'],
            UnaryOpCode::Sin => vec!['S', 'I', 'N'],
            UnaryOpCode::Cos => vec!['C', 'O', 'S'],
            UnaryOpCode::Tan => vec!['T', 'A', 'N'],
            UnaryOpCode::Arcsin => vec!['A', 'R', 'C', 'S', 'I', 'N'],
            UnaryOpCode::Arccos => vec!['A', 'R', 'C', 'C', 'O', 'S'],
            UnaryOpCode::Arctan => vec!['A', 'R', 'C', 'T', 'A', 'N'],
            UnaryOpCode::Log => vec!['L', 'O', 'G'],
            UnaryOpCode::Exp => vec!['E', 'X', 'P'],
            UnaryOpCode::Random => vec!['R', 'N', 'D'],
            UnaryOpCode::Round => vec!['R', 'O', 'U', 'N', 'D'],
            UnaryOpCode::Floor => vec!['I', 'N', 'T'],
            UnaryOpCode::ToUpper => vec!['U', 'P', 'P', 'E', 'R'],
            UnaryOpCode::ToLower => vec!['L', 'O', 'W', 'E', 'R'],
            UnaryOpCode::IsDigit => vec!['D', 'I', 'G', 'I', 'T'],
            UnaryOpCode::IsWordChar => vec!['C', 'H', 'A', 'R'],
            UnaryOpCode::ToFloat => vec!['F', 'L', 'O', 'A', 'T'],
        }
    }

    /// Whether `v[lo..hi]` is this operator's keyword.
    fn is_named_by(&self, v: &Vec<char>, lo: usize, hi: usize) -> (r: bool)
        requires
            lo <= hi <= v@.len(),
        ensures
            r == (v@.subrange(lo as int, hi as int) == unary_keyword(*self)),
    {
        let k = self.keyword_chars();
        same_text(v, lo, hi, &k)
    }

    /// The prefix operator whose keyword is `v[lo..hi]`.
    pub fn from_keyword(v: &Vec<char>, lo: usize, hi: usize) -> (r: Option<UnaryOpCode>)
        requires
            lo <= hi <= v@.len(),
        ensures
            r == unary_of_keyword(v@.subrange(lo as int, hi as int)),
    {
        if UnaryOpCode::Plus.is_named_by(v, lo, hi) {
            Some(UnaryOpCode::Plus)
        } else if UnaryOpCode::Neg.is_named_by(v, lo, hi) {
            Some(UnaryOpCode::Neg)
        } else if UnaryOpCode::Not.is_named_by(v, lo, hi) {
            Some(UnaryOpCode::Not)
        } else if UnaryOpCode::Sin.is_named_by(v, lo, hi) {
            Some(UnaryOpCode::Sin)
        } else if UnaryOpCode::Cos.is_named_by(v, lo, hi) {
            Some(UnaryOpCode::Cos)
        } else if UnaryOpCode::Tan.is_named_by(v, lo, hi) {
            Some(UnaryOpCode::Tan)
        } else if UnaryOpCode::Arcsin.is_named_by(v, lo, hi) {
            Some(UnaryOpCode::Arcsin)
        } else if UnaryOpCode::Arccos.is_named_by(v, lo, hi) {
            Some(UnaryOpCode::Arccos)
        } else if UnaryOpCode::Arctan.is_named_by(v, lo, hi) {
            Some(UnaryOpCode::Arctan)
        } else if UnaryOpCode::Log.is_named_by(v, lo, hi) {
            Some(UnaryOpCode::Log)
        } else if UnaryOpCode::Exp.is_named_by(v, lo, hi) {
            Some(UnaryOpCode::Exp)
        } else if UnaryOpCode::Random.is_named_by(v, lo, hi) {
            Some(UnaryOpCode::Random)
        } else if UnaryOpCode::Round.is_named_by(v, lo, hi) {
            Some(UnaryOpCode::Round)
        } else if UnaryOpCode::Floor.is_named_by(v, lo, hi) {
            Some(UnaryOpCode::Floor)
        } else if UnaryOpCode::ToUpper.is_named_by(v, lo, hi) {
            Some(UnaryOpCode::ToUpper)
        } else if UnaryOpCode::ToLower.is_named_by(v, lo, hi) {
            Some(UnaryOpCode::ToLower)
        } else if UnaryOpCode::IsDigit.is_named_by(v, lo, hi) {
            Some(UnaryOpCode::IsDigit)
        } else if UnaryOpCode::IsWordChar.is_named_by(v, lo, hi) {
            Some(UnaryOpCode::IsWordChar)
        } else if UnaryOpCode::ToFloat.is_named_by(v, lo, hi) {
            Some(UnaryOpCode::ToFloat)
        } else {
            None
        }
    }
}

impl BinaryCode {
    /// The characters of the display token.
    pub fn token_chars(&self) -> (r: Vec<char>)
        ensures
            r@ == binary_token(*self),
    {
        match self {
            BinaryCode::Pow => vec!['^'],
            BinaryCode::Search => vec!['@'],
            BinaryCode::Mul => vec!['*'],
            BinaryCode::Div => vec!['/'],
            BinaryCode::Mod => vec![' ', 'M', 'O', 'D', ' '],
            BinaryCode::IntDiv => vec![' ', 'D', 'I', 'V', ' '],
            BinaryCode::Add => vec!['+'],
            BinaryCode::Sub => vec!['-'],
            BinaryCode::And => vec![' ', 'A', 'N', 'D', ' '],
            BinaryCode::Or => vec![' ', 'O', 'R', ' '],
            BinaryCode::Eq => vec!['='],
            BinaryCode::Ne => vec!['/', '='],
            BinaryCode::Gt => vec!['>'],
            BinaryCode::Ge => vec!['>', '='],
            BinaryCode::Lt => vec!['<'],
            BinaryCode::Le => vec!['<', '='],
        }
    }

    /// The display token.
    pub fn token(&self) -> (r: String)
        ensures
            r@ == binary_token(*self),
    {
        let t = self.token_chars();
        string_of(&t, 0, t.len())
    }

    /// The precedence tier: 0 binds tightest, 4 loosest.
    pub fn tier(&self) -> (r: u8)
        ensures
            r as nat == tier(*self),
    {
        match self {
            BinaryCode::Pow | BinaryCode::Search => 0,
            BinaryCode::Mul | BinaryCode::Div | BinaryCode::Mod | BinaryCode::IntDiv => 1,
            BinaryCode::Add | BinaryCode::Sub => 2,
            BinaryCode::And | BinaryCode::Or => 3,
            BinaryCode::Eq | BinaryCode::Ne | BinaryCode::Gt | BinaryCode::Ge | BinaryCode::Lt | BinaryCode::Le => 4,
        }
    }

    /// The characters of the keyword.
    pub fn keyword_chars(&self) -> (r: Vec<char>)
        ensures
            r@ == binary_keyword(*self),
    {
        match self {
            BinaryCode::Pow => vec!['^'],
            BinaryCode::Search => vec!['@'],
            BinaryCode::Mul => vec!['*'],
            BinaryCode::Div => vec!['/'],
            BinaryCode::Mod => vec!['M', 'O', 'D'],
            BinaryCode::IntDiv => vec!['D', 'I', 'V'],
            BinaryCode::Add => vec!['+'],
            BinaryCode::Sub => vec!['-'],
            BinaryCode::And => vec!['A', 'N', 'D'],
            BinaryCode::Or => vec!['O', 'R'],
            BinaryCode::Eq => vec!['='],
            BinaryCode::Ne => vec!['/', '='],
            BinaryCode::Gt => vec!['>'],
            BinaryCode::Ge => vec!['>', '='],
            BinaryCode::Lt => vec!['<'],
            BinaryCode::Le => vec!['<', '='],
        }
    }

    /// Whether `v[lo..hi]` is this operator's keyword.
    fn is_named_by(&self, v: &Vec<char>, lo: usize, hi: usize) -> (r: bool)
        requires
            lo <= hi <= v@.len(),
        ensures
            r == (v@.subrange(lo as int, hi as int) == binary_keyword(*self)),
    {
        let k = self.keyword_chars();
        same_text(v, lo, hi, &k)
    }

    /// The infix operator whose keyword is `v[lo..hi]`.
    pub fn from_keyword(v: &Vec<char>, lo: usize, hi: usize) -> (r: Option<BinaryCode>)
        requires
            lo <= hi <= v@.len(),
        ensures
            r == binary_of_keyword(v@.subrange(lo as int, hi as int)),
    {
        if BinaryCode::Pow.is_named_by(v, lo, hi) {
            Some(BinaryCode::Pow)
        } else if BinaryCode::Search.is_named_by(v, lo, hi) {
            Some(BinaryCode::Search)
        } else if BinaryCode::Mul.is_named_by(v, lo, hi) {
            Some(BinaryCode::Mul)
        } else if BinaryCode::Div.is_named_by(v, lo, hi) {
            Some(BinaryCode::Div)
        } else if BinaryCode::Mod.is_named_by(v, lo, hi) {
            Some(BinaryCode::Mod)
        } else if BinaryCode::IntDiv.is_named_by(v, lo, hi) {
            Some(BinaryCode::IntDiv)
        } else if BinaryCode::Add.is_named_by(v, lo, hi) {
            Some(BinaryCode::Add)
        } else if BinaryCode::Sub.is_named_by(v, lo, hi) {
            Some(BinaryCode::Sub)
        } else if BinaryCode::And.is_named_by(v, lo, hi) {
            Some(BinaryCode::And)
        } else if BinaryCode::Or.is_named_by(v, lo, hi) {
            Some(BinaryCode::Or)
        } else if BinaryCode::Eq.is_named_by(v, lo, hi) {
            Some(BinaryCode::Eq)
        } else if BinaryCode::Ne.is_named_by(v, lo, hi) {
            Some(BinaryCode::Ne)
        } else if BinaryCode::Gt.is_named_by(v, lo, hi) {
            Some(BinaryCode::Gt)
        } else if BinaryCode::Ge.is_named_by(v, lo, hi) {
            Some(BinaryCode::Ge)
        } else if BinaryCode::Lt.is_named_by(v, lo, hi) {
            Some(BinaryCode::Lt)
        } else if BinaryCode::Le.is_named_by(v, lo, hi) {
            Some(BinaryCode::Le)
        } else {
            None
        }
    }
}

/// The character at `i`, as a number, or 0 past the end.
spec fn char_code(s: Seq<char>, i: int) -> int {
    if 0 <= i < s.len() {
        s[i] as u32 as int
    } else {
        0
    }
}

/// A number that tells the keywords of each catalog apart.
spec fn fingerprint(s: Seq<char>) -> int {
    s.len() * 1000000000 + char_code(s, 0) * 1000000 + char_code(s, 1) * 1000 + char_code(s, 3)
}

spec fn unary_index(op: UnaryOpCode) -> int {
    match op {
        UnaryOpCode::Plus => 0,
        UnaryOpCode::Neg => 1,
        UnaryOpCode::Not => 2,
        UnaryOpCode::Sin => 3,
        UnaryOpCode::Cos => 4,
        UnaryOpCode::Tan => 5,
        UnaryOpCode::Arcsin => 6,
        UnaryOpCode::Arccos => 7,
        UnaryOpCode::Arctan => 8,
        UnaryOpCode::Log => 9,
        UnaryOpCode::Exp => 10,
        UnaryOpCode::Random => 11,
        UnaryOpCode::Round => 12,
        UnaryOpCode::Floor => 13,
        UnaryOpCode::ToUpper => 14,
        UnaryOpCode::ToLower => 15,
        UnaryOpCode::IsDigit => 16,
        UnaryOpCode::IsWordChar => 17,
        UnaryOpCode::ToFloat => 18,
    }
}

spec fn unary_fingerprint(i: int) -> int {
    if i == 0 {
        1043000000
    } else if i == 1 {
        1045000000
    } else if i == 2 {
        3078069000
    } else if i == 3 {
        3083073000
    } else if i == 4 {
        3067079000
    } else if i == 5 {
        3084065000
    } else if i == 6 {
        6065082083
    } else if i == 7 {
        6065082067
    } else if i == 8 {
        6065082084
    } else if i == 9 {
        3076079000
    } else if i == 10 {
        3069088000
    } else if i == 11 {
        3082078000
    } else if i == 12 {
        5082079078
    } else if i == 13 {
        3073078000
    } else if i == 14 {
        5085080069
    } else if i == 15 {
        5076079069
    } else if i == 16 {
        5068073073
    } else if i == 17 {
        4067072082
    } else if i == 18 {
        5070076065
    } else {
        0
    }
}

proof fn lemma_unary_fingerprint(op: UnaryOpCode)
    ensures
        fingerprint(unary_keyword(op)) == unary_fingerprint(unary_index(op)),
{
}

/// Looking up the keyword of a prefix operator finds that operator.
#[verifier::rlimit(50)]
#[verifier::spinoff_prover]
pub proof fn lemma_unary_keyword(op: UnaryOpCode)
    ensures
        unary_of_keyword(unary_keyword(op)) == Some(op),
{
    lemma_unary_fingerprint(UnaryOpCode::Plus);
    lemma_unary_fingerprint(UnaryOpCode::Neg);
    lemma_unary_fingerprint(UnaryOpCode::Not);
    lemma_unary_fingerprint(UnaryOpCode::Sin);
    lemma_unary_fingerprint(UnaryOpCode::Cos);
    lemma_unary_fingerprint(UnaryOpCode::Tan);
    lemma_unary_fingerprint(UnaryOpCode::Arcsin);
    lemma_unary_fingerprint(UnaryOpCode::Arccos);
    lemma_unary_fingerprint(UnaryOpCode::Arctan);
    lemma_unary_fingerprint(UnaryOpCode::Log);
    lemma_unary_fingerprint(UnaryOpCode::Exp);
    lemma_unary_fingerprint(UnaryOpCode::Random);
    lemma_unary_fingerprint(UnaryOpCode::Round);
    lemma_unary_fingerprint(UnaryOpCode::Floor);
    lemma_unary_fingerprint(UnaryOpCode::ToUpper);
    lemma_unary_fingerprint(UnaryOpCode::ToLower);
    lemma_unary_fingerprint(UnaryOpCode::IsDigit);
    lemma_unary_fingerprint(UnaryOpCode::IsWordChar);
    lemma_unary_fingerprint(UnaryOpCode::ToFloat);
    lemma_unary_fingerprint(op);
}

spec fn binary_index(op: BinaryCode) -> int {
    match op {
        BinaryCode::Pow => 0,
        BinaryCode::Search => 1,
        BinaryCode::Mul => 2,
        BinaryCode::Div => 3,
        BinaryCode::Mod => 4,
        BinaryCode::IntDiv => 5,
        BinaryCode::Add => 6,
        BinaryCode::Sub => 7,
        BinaryCode::And => 8,
        BinaryCode::Or => 9,
        BinaryCode::Eq => 10,
        BinaryCode::Ne => 11,
        BinaryCode::Gt => 12,
        BinaryCode::Ge => 13,
        BinaryCode::Lt => 14,
        BinaryCode::Le => 15,
    }
}

spec fn binary_fingerprint(i: int) -> int {
    if i == 0 {
        1094000000
    } else if i == 1 {
        1064000000
    } else if i == 2 {
        1042000000
    } else if i == 3 {
        1047000000
    } else if i == 4 {
        3077079000
    } else if i == 5 {
        3068073000
    } else if i == 6 {
        1043000000
    } else if i == 7 {
        1045000000
    } else if i == 8 {
        3065078000
    } else if i == 9 {
        2079082000
    } else if i == 10 {
        1061000000
    } else if i == 11 {
        2047061000
    } else if i == 12 {
        1062000000
    } else if i == 13 {
        2062061000
    } else if i == 14 {
        1060000000
    } else if i == 15 {
        2060061000
    } else {
        0
    }
}

proof fn lemma_binary_fingerprint(op: BinaryCode)
    ensures
        fingerprint(binary_keyword(op)) == binary_fingerprint(binary_index(op)),
{
}

/// Looking up the keyword of an infix operator finds that operator.
#[verifier::rlimit(50)]
#[verifier::spinoff_prover]
pub proof fn lemma_binary_keyword(op: BinaryCode)
    ensures
        binary_of_keyword(binary_keyword(op)) == Some(op),
{
    lemma_binary_fingerprint(BinaryCode::Pow);
    lemma_binary_fingerprint(BinaryCode::Search);
    lemma_binary_fingerprint(BinaryCode::Mul);
    lemma_binary_fingerprint(BinaryCode::Div);
    lemma_binary_fingerprint(BinaryCode::Mod);
    lemma_binary_fingerprint(BinaryCode::IntDiv);
    lemma_binary_fingerprint(BinaryCode::Add);
    lemma_binary_fingerprint(BinaryCode::Sub);
    lemma_binary_fingerprint(BinaryCode::And);
    lemma_binary_fingerprint(BinaryCode::Or);
    lemma_binary_fingerprint(BinaryCode::Eq);
    lemma_binary_fingerprint(BinaryCode::Ne);
    lemma_binary_fingerprint(BinaryCode::Gt);
    lemma_binary_fingerprint(BinaryCode::Ge);
    lemma_binary_fingerprint(BinaryCode::Lt);
    lemma_binary_fingerprint(BinaryCode::Le);
    lemma_binary_fingerprint(op);
}

} // verus!
