use vstd::prelude::*;

use crate::error::{is_queue_not_found, means_queue_not_found, BrokerError, MqError};

verus! {

/// How a passive declaration of a queue ended: the time limit ran out first,
/// or the broker answered with the queue's message count or an error.
#[derive(Debug)]
pub enum QueryOutcome {
    TimedOut,
    Answered(Result<u32, BrokerError>),
}

/// The inspection result for queue `name` given how its query ended.
pub open spec fn inspection_of(name: String, outcome: QueryOutcome) -> Result<u32, MqError> {
    match outcome {
        QueryOutcome::TimedOut => Err(MqError::QueueTimeout(name)),
        QueryOutcome::Answered(Ok(count)) => Ok(count),
        QueryOutcome::Answered(Err(e)) => if means_queue_not_found(e.kind) {
            Err(MqError::QueueNotFound(name))
        } else {
            Err(MqError::QueueQueryError { queue: name, source: e })
        },
    }
}

/// The message count of a queue, or why it could not be had: a timeout
/// whatever the query would have returned, a missing queue when the broker's
/// error kind says so, any other broker error as it came.
pub fn get_message_count(queue_name: &String, outcome: QueryOutcome) -> (r: Result<u32, MqError>)
    ensures
        r == inspection_of(*queue_name, outcome),
{
    match outcome {
        QueryOutcome::TimedOut => Err(MqError::QueueTimeout(queue_name.clone())),
        QueryOutcome::Answered(Ok(count)) => Ok(count),
        QueryOutcome::Answered(Err(e)) => {
            if is_queue_not_found(&e.kind) {
                Err(MqError::QueueNotFound(queue_name.clone()))
            } else {
                Err(MqError::QueueQueryError { queue: queue_name.clone(), source: e })
            }
        },
    }
}

} // verus!
