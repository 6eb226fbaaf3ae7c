use vstd::prelude::*;

verus! {

/// The four textual fields of one record, in store order.
#[derive(Debug)]
pub struct EntryData {
    pub name: String,
    pub link: String,
    pub username: String,
    pub password: String,
}

/// The mathematical value of an [`EntryData`]: its fields as character
/// sequences.
pub struct EntryDataV {
    pub name: Seq<char>,
    pub link: Seq<char>,
    pub username: Seq<char>,
    pub password: Seq<char>,
}

impl View for EntryData {
    type V = EntryDataV;

    open spec fn view(&self) -> EntryDataV {
        EntryDataV {
            name: self.name@,
            link: self.link@,
            username: self.username@,
            password: self.password@,
        }
    }
}

/// One record together with its status marker: `+` is current, `-` is
/// retired, `*` needs its secret changed.
#[derive(Debug)]
pub enum Entry {
    Valid(EntryData),
    Invalid(EntryData),
    Change(EntryData),
}

/// The mathematical value of an [`Entry`].
pub enum EntryV {
    Valid(EntryDataV),
    Invalid(EntryDataV),
    Change(EntryDataV),
}

impl View for Entry {
    type V = EntryV;

    open spec fn view(&self) -> EntryV {
        match self {
            Entry::Valid(d) => EntryV::Valid(d@),
            Entry::Invalid(d) => EntryV::Invalid(d@),
            Entry::Change(d) => EntryV::Change(d@),
        }
    }
}

impl DeepView for Entry {
    type V = EntryV;

    open spec fn deep_view(&self) -> EntryV {
        self@
    }
}

/// Everything that can go wrong while parsing, querying or generating.
/// Line numbers are 1-based positions in the store text.
#[derive(Debug, PartialEq, Eq)]
pub enum Error {
    MissingMarker(usize),
    MissingName(usize),
    MissingLink(usize),
    MissingUsername(usize),
    MissingPassword(usize),
    InvalidEntryMarker(usize, String),
    PwGenErr(i32),
    PwGenErrMsg(i32, String),
    PwGenDied,
    PwGenNoStdout,
    Mismatch(String),
    NoMatches(String),
    NoPassFile,
}

/// The mathematical value of an [`Error`].
pub enum ErrorV {
    MissingMarker(int),
    MissingName(int),
    MissingLink(int),
    MissingUsername(int),
    MissingPassword(int),
    InvalidEntryMarker(int, Seq<char>),
    PwGenErr(int),
    PwGenErrMsg(int, Seq<char>),
    PwGenDied,
    PwGenNoStdout,
    Mismatch(Seq<char>),
    NoMatches(Seq<char>),
    NoPassFile,
}

impl View for Error {
    type V = ErrorV;

    open spec fn view(&self) -> ErrorV {
        match self {
            Error::MissingMarker(n) => ErrorV::MissingMarker(*n as int),
            Error::MissingName(n) => ErrorV::MissingName(*n as int),
            Error::MissingLink(n) => ErrorV::MissingLink(*n as int),
            Error::MissingUsername(n) => ErrorV::MissingUsername(*n as int),
            Error::MissingPassword(n) => ErrorV::MissingPassword(*n as int),
            Error::InvalidEntryMarker(n, m) => ErrorV::InvalidEntryMarker(*n as int, m@),
            Error::PwGenErr(c) => ErrorV::PwGenErr(*c as int),
            Error::PwGenErrMsg(c, m) => ErrorV::PwGenErrMsg(*c as int, m@),
            Error::PwGenDied => ErrorV::PwGenDied,
            Error::PwGenNoStdout => ErrorV::PwGenNoStdout,
            Error::Mismatch(q) => ErrorV::Mismatch(q@),
            Error::NoMatches(q) => ErrorV::NoMatches(q@),
            Error::NoPassFile => ErrorV::NoPassFile,
        }
    }
}

/// A `Result` seen through the views of both of its sides.
pub open spec fn res_view<A: View, B: View>(r: Result<A, B>) -> Result<A::V, B::V> {
    match r {
        Ok(a) => Ok(a@),
        Err(b) => Err(b@),
    }
}

/// What the four fields of line `num` are, given its whitespace-separated
/// tokens from position `from` on: the first absent field decides the error.
pub open spec fn spec_entry_data(tokens: Seq<Seq<char>>, from: int, num: int) -> Result<
    EntryDataV,
    ErrorV,
> {
    if tokens.len() <= from {
        Err(ErrorV::MissingName(num))
    } else if tokens.len() <= from + 1 {
        Err(ErrorV::MissingLink(num))
    } else if tokens.len() <= from + 2 {
        Err(ErrorV::MissingUsername(num))
    } else if tokens.len() <= from + 3 {
        Err(ErrorV::MissingPassword(num))
    } else {
        Ok(
            EntryDataV {
                name: tokens[from],
                link: tokens[from + 1],
                username: tokens[from + 2],
                password: tokens[from + 3],
            },
        )
    }
}

/// What line `num` parses to, given its whitespace-separated tokens: the
/// marker must be present, then the four fields, and only then must the
/// marker be one of `+`, `-`, `*`.
pub open spec fn spec_entry(tokens: Seq<Seq<char>>, num: int) -> Result<EntryV, ErrorV> {
    if tokens.len() == 0 {
        Err(ErrorV::MissingMarker(num))
    } else {
        match spec_entry_data(tokens, 1, num) {
            Err(e) => Err(e),
            Ok(d) => {
                if tokens[0] == seq!['+'] {
                    Ok(EntryV::Valid(d))
                } else if tokens[0] == seq!['-'] {
                    Ok(EntryV::Invalid(d))
                } else if tokens[0] == seq!['*'] {
                    Ok(EntryV::Change(d))
                } else {
                    Err(ErrorV::InvalidEntryMarker(num, tokens[0]))
                }
            },
        }
    }
}

/// Decides whether the token `m` is exactly the one character `c`.
fn token_is_char(m: &String, c: char) -> (r: bool)
    ensures
        r == (m@ == seq![c]),
{
    let s = m.as_str();
    if s.unicode_len() == 1 && s.get_char(0) == c {
        proof {
            assert(m@ =~= seq![c]);
        }
        true
    } else {
        proof {
            assert(m@ == seq![c] ==> m@.len() == 1 && m@[0] == c);
        }
        false
    }
}

impl EntryData {
    /// A copy of this record with the same four fields.
    pub fn duplicate(&self) -> (r: EntryData)
        ensures
            r@ == self@,
    {
        EntryData {
            name: self.name.clone(),
            link: self.link.clone(),
            username: self.username.clone(),
            password: self.password.clone(),
        }
    }

    /// Reads the four fields of line `num` out of `tokens`, starting at
    /// position `from`.
    pub fn parse(num: usize, tokens: &Vec<String>, from: usize) -> (r: Result<EntryData, Error>)
        ensures
            res_view(r) == spec_entry_data(tokens.deep_view(), from as int, num as int),
    {
        let n = tokens.len();
        if n <= from {
            return Err(Error::MissingName(num));
        }
        if n - from == 1 {
            return Err(Error::MissingLink(num));
        }
        if n - from == 2 {
            return Err(Error::MissingUsername(num));
        }
        if n - from == 3 {
            return Err(Error::MissingPassword(num));
        }
        Ok(
            EntryData {
                name: tokens[from].clone(),
                link: tokens[from + 1].clone(),
                username: tokens[from + 2].clone(),
                password: tokens[from + 3].clone(),
            },
        )
    }
}

impl Entry {
    /// Parses line `num` from its whitespace-separated tokens: marker first,
    /// then the four fields, then the marker's validity.
    pub fn parse(num: usize, tokens: &Vec<String>) -> (r: Result<Entry, Error>)
        ensures
            res_view(r) == spec_entry(tokens.deep_view(), num as int),
    {
        if tokens.len() == 0 {
            return Err(Error::MissingMarker(num));
        }
        let data = match EntryData::parse(num, tokens, 1) {
            Ok(d) => d,
            Err(e) => {
                return Err(e);
            },
        };
        let marker = &tokens[0];
        if token_is_char(marker, '+') {
            Ok(Entry::Valid(data))
        } else if token_is_char(marker, '-') {
            Ok(Entry::Invalid(data))
        } else if token_is_char(marker, '*') {
            Ok(Entry::Change(data))
        } else {
            Err(Error::InvalidEntryMarker(num, marker.clone()))
        }
    }
}

} // verus!
