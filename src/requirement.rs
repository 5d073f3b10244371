//! Requirement expressions: a prefix-tagged tree of signing-policy terms.
use crate::error::MachOParseError;
use crate::wire::{be_u32, decode_text, read_u32_be, utf8_result};
use vstd::prelude::*;
use vstd::slice::slice_subrange;

verus! {

/// How deeply `And` and `Or` terms may nest.
pub const MAX_EXPRESSION_DEPTH: u32 = 64;

/// A requirement expression, borrowing its identifiers from the blob.
#[derive(Debug)]
pub enum Expression<'a> {
    False,
    True,
    Ident(&'a str),
    AppleAnchor,
    AnchorHash,
    InfoKeyValue,
    And(Box<Expression<'a>>, Box<Expression<'a>>),
    Or(Box<Expression<'a>>, Box<Expression<'a>>),
    CDHash,
    Not,
    InfoKeyField,
    CertField,
    TrustedCert,
    TrustedCerts,
    CertGeneric,
    AppleGenericAnchor,
    EntitlementField,
    Other(u32),
}

/// The mathematical form of an expression: identifiers as text.
pub enum ExprTree {
    False,
    True,
    Ident(Seq<char>),
    AppleAnchor,
    AnchorHash,
    InfoKeyValue,
    And(Box<ExprTree>, Box<ExprTree>),
    Or(Box<ExprTree>, Box<ExprTree>),
    CDHash,
    Not,
    InfoKeyField,
    CertField,
    TrustedCert,
    TrustedCerts,
    CertGeneric,
    AppleGenericAnchor,
    EntitlementField,
    Other(u32),
}

impl<'a> Expression<'a> {
    /// The tree that this expression denotes.
    pub open spec fn tree(&self) -> ExprTree
        decreases self,
    {
        match self {
            Expression::False => ExprTree::False,
            Expression::True => ExprTree::True,
            Expression::Ident(s) => ExprTree::Ident(s@),
            Expression::AppleAnchor => ExprTree::AppleAnchor,
            Expression::AnchorHash => ExprTree::AnchorHash,
            Expression::InfoKeyValue => ExprTree::InfoKeyValue,
            Expression::And(a, b) => ExprTree::And(Box::new(a.tree()), Box::new(b.tree())),
            Expression::Or(a, b) => ExprTree::Or(Box::new(a.tree()), Box::new(b.tree())),
            Expression::CDHash => ExprTree::CDHash,
            Expression::Not => ExprTree::Not,
            Expression::InfoKeyField => ExprTree::InfoKeyField,
            Expression::CertField => ExprTree::CertField,
            Expression::TrustedCert => ExprTree::TrustedCert,
            Expression::TrustedCerts => ExprTree::TrustedCerts,
            Expression::CertGeneric => ExprTree::CertGeneric,
            Expression::AppleGenericAnchor => ExprTree::AppleGenericAnchor,
            Expression::EntitlementField => ExprTree::EntitlementField,
            Expression::Other(t) => ExprTree::Other(*t),
        }
    }
}

/// The term that a tag without operands names.
pub open spec fn leaf_of(tag: u32) -> ExprTree {
    if tag == 0 {
        ExprTree::False
    } else if tag == 1 {
        ExprTree::True
    } else if tag == 3 {
        ExprTree::AppleAnchor
    } else if tag == 4 {
        ExprTree::AnchorHash
    } else if tag == 5 {
        ExprTree::InfoKeyValue
    } else if tag == 8 {
        ExprTree::CDHash
    } else if tag == 9 {
        ExprTree::Not
    } else if tag == 10 {
        ExprTree::InfoKeyField
    } else if tag == 11 {
        ExprTree::CertField
    } else if tag == 12 {
        ExprTree::TrustedCert
    } else if tag == 13 {
        ExprTree::TrustedCerts
    } else if tag == 14 {
        ExprTree::CertGeneric
    } else if tag == 15 {
        ExprTree::AppleGenericAnchor
    } else if tag == 16 {
        ExprTree::EntitlementField
    } else {
        ExprTree::Other(tag)
    }
}

/// The last `n` elements of `s` (all of it where `n` exceeds its length).
pub open spec fn suffix(s: Seq<u8>, n: nat) -> Seq<u8> {
    if n <= s.len() {
        s.subrange(s.len() - n, s.len() as int)
    } else {
        s
    }
}

/// Decoding of an expression from the front of `d`, at nesting `depth`: the
/// tree and the length of the unconsumed tail.
///
/// `And` and `Or` take two operands in turn; `Ident` takes the rest of the
/// data as its text; unknown tags end the expression with nothing left over.
pub open spec fn parse_expression(d: Seq<u8>, depth: nat) -> Result<(ExprTree, nat), MachOParseError>
    decreases d.len(),
{
    if depth > MAX_EXPRESSION_DEPTH {
        Err(MachOParseError::ExpressionTooDeep)
    } else if d.len() < 4 {
        Err(MachOParseError::Read)
    } else {
        let tag = be_u32(d, 0);
        let tail = d.subrange(4, d.len() as int);
        if tag == 2 {
            match utf8_result(tail) {
                Ok(s) => Ok((ExprTree::Ident(s), 0)),
                Err(e) => Err(e),
            }
        } else if tag == 6 || tag == 7 {
            match parse_expression(tail, depth + 1) {
                Err(e) => Err(e),
                Ok((a, ra)) => match parse_expression(suffix(tail, ra), depth + 1) {
                    Err(e) => Err(e),
                    Ok((b, rb)) => if tag == 6 {
                        Ok((ExprTree::And(Box::new(a), Box::new(b)), rb))
                    } else {
                        Ok((ExprTree::Or(Box::new(a), Box::new(b)), rb))
                    },
                },
            }
        } else if tag <= 16 {
            Ok((leaf_of(tag), tail.len()))
        } else {
            Ok((ExprTree::Other(tag), 0))
        }
    }
}

/// The term that a tag without operands names.
fn leaf(tag: u32) -> (r: Expression<'static>)
    requires
        tag != 2 && tag != 6 && tag != 7,
    ensures
        r.tree() == leaf_of(tag),
{
    match tag {
        0 => Expression::False,
        1 => Expression::True,
        3 => Expression::AppleAnchor,
        4 => Expression::AnchorHash,
        5 => Expression::InfoKeyValue,
        8 => Expression::CDHash,
        9 => Expression::Not,
        10 => Expression::InfoKeyField,
        11 => Expression::CertField,
        12 => Expression::TrustedCert,
        13 => Expression::TrustedCerts,
        14 => Expression::CertGeneric,
        15 => Expression::AppleGenericAnchor,
        16 => Expression::EntitlementField,
        _ => Expression::Other(tag),
    }
}

/// Decodes an expression at nesting `depth`.
fn parse_expression_at<'a>(data: &'a [u8], depth: u32) -> (r: Result<(Expression<'a>, &'a [u8]), MachOParseError>)
    ensures
        match r {
            Ok((e, rest)) => parse_expression(data@, depth as nat) == Ok::<(ExprTree, nat), MachOParseError>((e.tree(), rest@.len()))
                && rest@ == suffix(data@, rest@.len()) && rest@.len() < data@.len(),
            Err(e) => parse_expression(data@, depth as nat) == Err::<(ExprTree, nat), MachOParseError>(e),
        },
    decreases data@.len(),
{
    if depth > MAX_EXPRESSION_DEPTH {
        return Err(MachOParseError::ExpressionTooDeep);
    }
    let tag = read_u32_be(data, 0)?;
    let tail = slice_subrange(data, 4, data.len());
    let empty = slice_subrange(data, data.len(), data.len());
    if tag == 2 {
        let s = decode_text(tail)?;
        Ok((Expression::Ident(s), empty))
    } else if tag == 6 || tag == 7 {
        let (a, rest_a) = parse_expression_at(tail, depth + 1)?;
        let (b, rest_b) = parse_expression_at(rest_a, depth + 1)?;
        proof {
            assert(rest_a@ == suffix(tail@, rest_a@.len()));
            assert(rest_b@ =~= suffix(data@, rest_b@.len()));
        }
        if tag == 6 {
            Ok((Expression::And(Box::new(a), Box::new(b)), rest_b))
        } else {
            Ok((Expression::Or(Box::new(a), Box::new(b)), rest_b))
        }
    } else if tag <= 16 {
        proof {
            assert(tail@ =~= suffix(data@, tail@.len()));
        }
        Ok((leaf(tag), tail))
    } else {
        Ok((Expression::Other(tag), empty))
    }
}

impl<'a> Expression<'a> {
    /// Decodes an expression from the front of `data`; gives it with the
    /// unconsumed tail.
    pub fn from_bytes(data: &'a [u8]) -> (r: Result<(Expression<'a>, &'a [u8]), MachOParseError>)
        ensures
            match r {
                Ok((e, rest)) => parse_expression(data@, 0) == Ok::<(ExprTree, nat), MachOParseError>((e.tree(), rest@.len()))
                    && rest@ == suffix(data@, rest@.len()),
                Err(e) => parse_expression(data@, 0) == Err::<(ExprTree, nat), MachOParseError>(e),
            },
    {
        parse_expression_at(data, 0)
    }
}

} // verus!
