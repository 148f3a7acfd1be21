use vstd::prelude::*;

verus! {

/// An error that carries nothing but a static description.
#[derive(Debug, Clone, Copy)]
pub struct SimpleError {
    description: &'static str,
}

impl View for SimpleError {
    type V = Seq<char>;

    /// The description text of the error.
    closed spec fn view(&self) -> Seq<char> {
        self.description@
    }
}

impl SimpleError {
    /// Creates an error with the given description.
    pub fn new(description: &'static str) -> (r: Self)
        ensures
            r@ == description@,
    {
        Self { description }
    }

    /// The description given when the error was made.
    pub fn description(&self) -> (r: &'static str)
        ensures
            r@ == self@,
    {
        self.description
    }

    /// The text that the error displays: its description.
    pub fn to_string(&self) -> (r: String)
        ensures
            r@ == self@,
    {
        String::from_str(self.description)
    }
}

/// The description that drawing errors are reported with.
pub open spec fn draw_error_text() -> Seq<char> {
    seq!['U', 'n', 'h', 'a', 'n', 'd', 'l', 'e', 'd', ' ', 'D', 'r', 'a', 'w', ' ', 'E', 'x']
}

/// The error that a failed drawing operation is reported with.
pub fn draw_error() -> (r: SimpleError)
    ensures
        r@ == draw_error_text(),
{
    let e = SimpleError::new("Unhandled Draw Ex");
    proof {
        reveal_strlit("Unhandled Draw Ex");
    }
    e
}

/// Turns the outcome of a drawing operation into a result whose error is a
/// `SimpleError`, dropping whatever the operation reported.
pub trait ContextExt<T>: Sized {
    fn draw_context(self) -> Result<T, SimpleError>;
}

impl<T, E> ContextExt<T> for Result<T, E> {
    fn draw_context(self) -> (r: Result<T, SimpleError>)
        ensures
            match self {
                Ok(v) => r == Ok::<T, SimpleError>(v),
                Err(_) => r is Err && r->Err_0@ == draw_error_text(),
            },
    {
        match self {
            Ok(v) => Ok(v),
            Err(_) => Err(draw_error()),
        }
    }
}

impl<T> ContextExt<T> for Option<T> {
    fn draw_context(self) -> (r: Result<T, SimpleError>)
        ensures
            match self {
                Some(v) => r == Ok::<T, SimpleError>(v),
                None => r is Err && r->Err_0@ == draw_error_text(),
            },
    {
        match self {
            None => Err(draw_error()),
            Some(v) => Ok(v),
        }
    }
}

} // verus!
