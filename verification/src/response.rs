//! The one form in which a node answers a request.

use vstd::prelude::*;

verus! {

/// The code of an answer that reports success.
pub const SUCCESS_CODE: i8 = 0;

/// The code of an answer that reports an error of no particular kind.
pub const ERROR_CODE: i8 = -1;

/// An answer: a code, zero for success, and a message.
#[derive(Debug, Clone, Default, PartialEq, Eq)]
pub struct UnifiedResponseMessages {
    code: i8,
    msg: String,
}

impl UnifiedResponseMessages {
    /// The code of the answer.
    pub closed spec fn spec_code(self) -> i8 {
        self.code
    }

    /// The message of the answer.
    pub closed spec fn spec_msg(self) -> Seq<char> {
        self.msg@
    }

    /// The answer that reports success, without a message.
    pub fn success() -> (answer: UnifiedResponseMessages)
        ensures
            answer.spec_code() == SUCCESS_CODE,
            answer.spec_msg() == Seq::<char>::empty(),
    {
        UnifiedResponseMessages { code: 0, msg: String::new() }
    }

    /// The answer that reports an error, without a message.
    pub fn error() -> (answer: UnifiedResponseMessages)
        ensures
            answer.spec_code() == ERROR_CODE,
            answer.spec_msg() == Seq::<char>::empty(),
    {
        UnifiedResponseMessages { code: -1, msg: String::new() }
    }

    /// The same answer with this message.
    pub fn customized_error_msg(self, msg: String) -> (answer: UnifiedResponseMessages)
        ensures
            answer.spec_code() == self.spec_code(),
            answer.spec_msg() == msg@,
    {
        let mut answer = self;
        answer.msg = msg;
        answer
    }

    /// The same answer with this code.
    pub fn customized_error_code(self, code: i8) -> (answer: UnifiedResponseMessages)
        ensures
            answer.spec_code() == code,
            answer.spec_msg() == self.spec_msg(),
    {
        let mut answer = self;
        answer.code = code;
        answer
    }

    /// The same answer with success and error exchanged: the code `c` becomes `-1 - c`.
    pub fn reverse(self) -> (answer: UnifiedResponseMessages)
        ensures
            answer.spec_code() == -1 - self.spec_code(),
            answer.spec_msg() == self.spec_msg(),
    {
        let mut answer = self;
        answer.code = -1 - answer.code;
        answer
    }

    /// The answer to a request that gave `value`: success for a result, and
    /// an error with the failure's message otherwise.
    pub fn from<T>(value: Result<T, String>) -> (answer: UnifiedResponseMessages)
        ensures
            match value {
                Ok(_) => answer.spec_code() == SUCCESS_CODE && answer.spec_msg().len() == 0,
                Err(message) => answer.spec_code() == ERROR_CODE && answer.spec_msg() == message@,
            },
    {
        match value {
            Ok(_) => Self::success(),
            Err(e) => Self::error().customized_error_msg(e),
        }
    }

    /// The code of this answer.
    pub fn code(&self) -> (code: i8)
        ensures
            code == self.spec_code(),
    {
        self.code
    }

    /// The message of this answer.
    pub fn msg(&self) -> (msg: &String)
        ensures
            msg@ == self.spec_msg(),
    {
        &self.msg
    }
}

/// Exchanging success and error twice changes nothing, and it turns the code
/// of success into that of an error and back.
pub proof fn lemma_reverse_twice(code: i8)
    ensures
        -1 - (-1 - code) == code,
        -1 - SUCCESS_CODE == ERROR_CODE,
        -1 - ERROR_CODE == SUCCESS_CODE,
{
}

} // verus!
