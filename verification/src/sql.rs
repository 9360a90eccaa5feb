//! SQL statements and their parameters.

use vstd::prelude::*;

use crate::time::{TimeDelta, Timestamp};

verus! {

/// A parameter of a statement.
#[derive(Debug)]
pub enum Arg<S = String, B = Vec<u8>> {
    /// The number of a large object.
    Oid(u32),
    Int(i32),
    BigInt(i64),
    Bytes(B),
    Text(S),
    Uuid(u128),
    Interval(Option<TimeDelta>),
    Time(Option<Timestamp>),
}

/// A statement with its parameters, the first of which is `$1`.
#[derive(Debug)]
pub struct Statement<S = String, L = Vec<Arg>> {
    pub sql: S,
    pub args: L,
}

/// A parameter over mathematical values.
pub type ArgView = Arg<Seq<char>, Seq<u8>>;

/// A statement over mathematical values.
pub type StatementView = Statement<Seq<char>, Seq<ArgView>>;

impl View for Arg<String, Vec<u8>> {
    type V = ArgView;

    open spec fn view(&self) -> ArgView {
        match self {
            Arg::Oid(oid) => Arg::Oid(*oid),
            Arg::Int(n) => Arg::Int(*n),
            Arg::BigInt(n) => Arg::BigInt(*n),
            Arg::Bytes(data) => Arg::Bytes(data@),
            Arg::Text(text) => Arg::Text(text@),
            Arg::Uuid(id) => Arg::Uuid(*id),
            Arg::Interval(delta) => Arg::Interval(*delta),
            Arg::Time(at) => Arg::Time(*at),
        }
    }
}

impl View for Statement<String, Vec<Arg<String, Vec<u8>>>> {
    type V = StatementView;

    open spec fn view(&self) -> StatementView {
        Statement { sql: self.sql@, args: self.args@.map_values(|arg: Arg| arg@) }
    }
}

/// A statement with one parameter.
pub(crate) fn statement1(sql: &str, arg: Arg) -> (out: Statement)
    ensures
        out@ == (Statement { sql: sql@, args: seq![arg@] }),
{
    let mut args: Vec<Arg> = Vec::new();
    args.push(arg);
    let out = Statement { sql: sql.to_owned(), args };
    assert(out@.args =~= seq![arg@]);
    out
}

/// A statement with two parameters.
pub(crate) fn statement2(sql: &str, first: Arg, second: Arg) -> (out: Statement)
    ensures
        out@ == (Statement { sql: sql@, args: seq![first@, second@] }),
{
    let mut args: Vec<Arg> = Vec::new();
    args.push(first);
    args.push(second);
    let out = Statement { sql: sql.to_owned(), args };
    assert(out@.args =~= seq![first@, second@]);
    out
}

} // verus!
