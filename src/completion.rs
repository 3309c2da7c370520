use vstd::prelude::*;

verus! {

/// What the kernel reports for one finished operation, as plain values:
/// the correlation tag echoed back, the signed result code and the flags.
#[derive(Clone, Copy, Debug, PartialEq, Eq, Structural)]
pub struct Completion {
    pub user_data: u64,
    pub result: i32,
    pub flags: u32,
}

impl Completion {
    pub fn new(user_data: u64, result: i32, flags: u32) -> (r: Completion)
        ensures
            r.user_data == user_data,
            r.result == result,
            r.flags == flags,
    {
        Completion { user_data, result, flags }
    }

    pub fn user_data(&self) -> (r: u64)
        ensures
            r == self.user_data,
    {
        self.user_data
    }

    pub fn result(&self) -> (r: i32)
        ensures
            r == self.result,
    {
        self.result
    }

    pub fn flags(&self) -> (r: u32)
        ensures
            r == self.flags,
    {
        self.flags
    }
}

} // verus!
