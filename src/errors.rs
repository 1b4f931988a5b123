use crate::text::joined;
use vstd::prelude::*;

verus! {

/// The variant of a JNI failure that decides which exception reports it.
#[derive(Clone, Copy, Debug, PartialEq, Eq, Structural, Hash)]
pub enum JniFailureKind {
    /// A Java exception is already pending in the calling thread.
    JavaException,
    /// A null pointer was passed or dereferenced.
    NullPointer,
    /// Any other failure of the JNI layer.
    Other,
}

/// A failure of the JNI layer: its variant and the text it displays as.
#[derive(Clone, Debug, PartialEq, Eq)]
pub struct JniFailure {
    pub kind: JniFailureKind,
    pub text: String,
}

/// The errors of the binding.
#[derive(Clone, Debug, PartialEq, Eq)]
pub enum Error {
    Jni(JniFailure),
    LockPoison(String),
}

/// How an error is raised on the Java side.
#[derive(Clone, Debug, PartialEq, Eq)]
pub enum Throw {
    /// Leave the exception that is already pending.
    Pending,
    /// Construct an exception of `class` from `message` and throw it.
    New { class: String, message: String },
}

/// The text an error displays as.
pub open spec fn error_message(e: Error) -> Seq<char> {
    match e {
        Error::Jni(f) => "JNI error: "@ + f.text@,
        Error::LockPoison(s) => s@,
    }
}

/// The class and message of the exception that reports `e`, where a new one
/// is thrown.
pub open spec fn new_exception(e: Error) -> (Seq<char>, Seq<char>) {
    match e {
        Error::Jni(f) => match f.kind {
            JniFailureKind::NullPointer => ("java/lang/NullPointerException"@, error_message(e)),
            _ => (
                "java/lang/RuntimeException"@,
                "unknown exception caught (likely a BUG): "@ + error_message(e),
            ),
        },
        Error::LockPoison(_) => ("java/lang/RuntimeException"@, error_message(e)),
    }
}

impl Error {
    /// The text this error displays as.
    pub fn message(&self) -> (r: String)
        ensures
            r@ == error_message(*self),
    {
        match self {
            Error::Jni(f) => joined("JNI error: ", f.text.as_str()),
            Error::LockPoison(s) => s.clone(),
        }
    }

    /// How this error is raised as a Java exception: a pending Java exception
    /// stays as it is, a null pointer becomes a `NullPointerException`, and
    /// anything else a `RuntimeException`.
    pub fn lookup(&self) -> (r: Throw)
        ensures
            r is Pending <==> (self matches Error::Jni(f) && f.kind == JniFailureKind::JavaException),
            r matches Throw::New { class, message } ==> (class@, message@) == new_exception(*self),
    {
        match self {
            Error::Jni(f) => match f.kind {
                JniFailureKind::JavaException => Throw::Pending,
                JniFailureKind::NullPointer => Throw::New {
                    class: "java/lang/NullPointerException".to_owned(),
                    message: self.message(),
                },
                JniFailureKind::Other => {
                    let m = self.message();
                    Throw::New {
                        class: "java/lang/RuntimeException".to_owned(),
                        message: joined("unknown exception caught (likely a BUG): ", m.as_str()),
                    }
                },
            },
            Error::LockPoison(_) => Throw::New {
                class: "java/lang/RuntimeException".to_owned(),
                message: self.message(),
            },
        }
    }
}

} // verus!
