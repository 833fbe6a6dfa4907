//! Small standard helpers: a value of one of two types, the messages of
//! file-system errors, views of values as text, and conversions that take a
//! transformer.
use vstd::prelude::*;

verus! {

/// A value that is one of two types; A or B.
#[derive(Debug, Clone, Copy, PartialEq, Eq, Hash)]
pub enum Either<A, B> {
    A(A),
    B(B),
}

impl<A, B> Either<A, B> {
    pub fn is_a(&self) -> (b: bool)
        ensures
            b == (*self is A),
    {
        matches!(self, Either::A(_))
    }

    pub fn is_b(&self) -> (b: bool)
        ensures
            b == (*self is B),
    {
        matches!(self, Either::B(_))
    }
}

/// The standard messages of file-system errors: "Unable to <operation>
/// <from/to> <file type> <file/directory>".
#[derive(Debug, Copy, Clone)]
pub enum FsErrMsg {
    CreateDir,
    ReadFile(&'static str),
    WriteFile(&'static str),
    AccessFile(&'static str),
}

/// The message of each file-system error.
pub open spec fn spec_fs_err_message(m: FsErrMsg) -> Seq<char> {
    match m {
        FsErrMsg::CreateDir => "Unable to create directory"@,
        FsErrMsg::ReadFile(t) => "Unable to read from "@ + t@ + " file"@,
        FsErrMsg::WriteFile(t) => "Unable to write to "@ + t@ + " file"@,
        FsErrMsg::AccessFile(t) => "No permission to access "@ + t@ + " file"@,
    }
}

impl FsErrMsg {
    /// The message.
    pub fn to_string(&self) -> (s: String)
        ensures
            s@ == spec_fs_err_message(*self),
    {
        match self {
            FsErrMsg::CreateDir => String::from_str("Unable to create directory"),
            FsErrMsg::ReadFile(t) => {
                let mut s = String::from_str("Unable to read from ");
                s.append(t);
                s.append(" file");
                s
            },
            FsErrMsg::WriteFile(t) => {
                let mut s = String::from_str("Unable to write to ");
                s.append(t);
                s.append(" file");
                s
            },
            FsErrMsg::AccessFile(t) => {
                let mut s = String::from_str("No permission to access ");
                s.append(t);
                s.append(" file");
                s
            },
        }
    }
}

/// A value seen as text.
pub trait AsStr {
    fn as_str(&self) -> &str;
}


/// A variation of `TryFrom` that takes a transformer (`With`) for more
/// complex transforms.
pub trait TryFromWith<'w, T> where Self: Sized {
    type Error;
    type With;

    fn try_from_with(value: T, with: Self::With) -> Result<Self, Self::Error>;
}

/// A variation of `TryInto` that takes a transformer (`With`); every
/// `TryFromWith` gives one.
pub trait TryIntoWith<'w, T> {
    type Error;
    type With;

    fn try_into_with(self, with: Self::With) -> Result<T, Self::Error>;
}

impl<'w, T, U> TryIntoWith<'w, U> for T where U: TryFromWith<'w, T> {
    type Error = <U as TryFromWith<'w, T>>::Error;
    type With = <U as TryFromWith<'w, T>>::With;

    /// What `U::try_from_with` gives for the value and the transformer.
    fn try_into_with(self, with: Self::With) -> (r: Result<U, Self::Error>)
        ensures
            call_ensures(U::try_from_with, (self, with), r),
    {
        U::try_from_with(self, with)
    }
}

/// Transforms values into types that take this transformer as their
/// `With`.
pub trait TryFromTransformer<'w, T, U> where Self: 'w, T: TryFromWith<'w, U, With = &'w Self> {
    fn try_transform_from(&'w self, value: U) -> Result<T, <T as TryFromWith<'w, U>>::Error>;
}

} // verus!
