use vstd::prelude::*;

verus! {

/// The mathematical value of one aggregate: the summed duration of all samples
/// recorded under one name, in nanoseconds, and how many samples were merged in.
#[verifier::ext_equal]
pub ghost struct Aggregate {
    pub total: int,
    pub count: int,
}

/// Accumulated timing data for one logical name: the total execution time in
/// nanoseconds and the number of recorded executions. Both fields only ever
/// grow for the life of the registry that owns them.
#[derive(Clone, Copy, Debug, PartialEq, Eq, PartialOrd, Ord, Structural)]
pub struct ProfileData {
    pub total_execution_time: u128,
    pub number_of_executions: u64,
}

impl View for ProfileData {
    type V = Aggregate;

    open spec fn view(&self) -> Aggregate {
        Aggregate { total: self.total_execution_time as int, count: self.number_of_executions as int }
    }
}

impl Default for ProfileData {
    /// An aggregate that no sample has been merged into yet.
    fn default() -> (r: Self)
        ensures
            r@.total == 0,
            r@.count == 0,
    {
        ProfileData { total_execution_time: 0, number_of_executions: 0 }
    }
}

impl ProfileData {
    /// Merge one sample: add its duration to the total and count it.
    pub fn add_sample(self, duration_nanos: u128) -> (r: Self)
        requires
            self@.total + duration_nanos <= u128::MAX,
            self@.count < u64::MAX,
        ensures
            r@.total == self@.total + duration_nanos,
            r@.count == self@.count + 1,
    {
        ProfileData {
            total_execution_time: self.total_execution_time + duration_nanos,
            number_of_executions: self.number_of_executions + 1,
        }
    }
}

} // verus!
