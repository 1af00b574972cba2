//! The batched output sink.
//!
//! Produced records accumulate in an in-memory buffer with a declared
//! capacity `push_data_size`. The append that makes the buffer reach that
//! capacity hands the whole batch back for delivery and leaves the buffer
//! empty; at shutdown the remainder is handed back unconditionally. When a
//! delivery fails, the caller puts the batch back with `restore`, so no
//! buffered record is ever lost to a transient failure. The embedding
//! program keeps one buffer behind one lock, so each operation here is one
//! critical section: a batch is always a snapshot of the full buffer, and an
//! append that arrives after a batch was taken starts a fresh batch.

use vstd::prelude::*;

verus! {

/// A buffer of records of type `T`, flushed in batches of `push_data_size`.
pub struct SinkBuffer<T> {
    /// Records appended and not yet handed out, oldest first.
    pub buffer: Vec<T>,
    /// The batch size that triggers a flush.
    pub push_data_size: usize,
}

impl<T> SinkBuffer<T> {
    /// An empty buffer with the given flush threshold.
    pub fn new(push_data_size: usize) -> (r: SinkBuffer<T>)
        ensures
            r.buffer@ == Seq::<T>::empty(),
            r.push_data_size == push_data_size,
    {
        SinkBuffer { buffer: Vec::new(), push_data_size }
    }

    /// Appends one record. When that makes the buffer reach
    /// `push_data_size`, the full batch — exactly the records appended since
    /// the last flush, in append order — is handed back and the buffer is
    /// left empty; otherwise the record is only buffered.
    pub fn append(&mut self, record: T) -> (batch: Option<Vec<T>>)
        ensures
            final(self).push_data_size == old(self).push_data_size,
            old(self).buffer@.len() + 1 >= old(self).push_data_size ==> {
                &&& batch matches Some(b) && b@ == old(self).buffer@.push(record)
                &&& final(self).buffer@ == Seq::<T>::empty()
            },
            old(self).buffer@.len() + 1 < old(self).push_data_size ==> {
                &&& batch is None
                &&& final(self).buffer@ == old(self).buffer@.push(record)
            },
    {
        self.buffer.push(record);
        if self.buffer.len() >= self.push_data_size {
            let batch = self.buffer.split_off(0);
            proof {
                assert(batch@ =~= old(self).buffer@.push(record));
                assert(self.buffer@ =~= Seq::<T>::empty());
            }
            Some(batch)
        } else {
            None
        }
    }

    /// Puts a batch whose delivery failed back in front of the buffer, so
    /// its records are retried with the next flush.
    pub fn restore(&mut self, batch: Vec<T>)
        ensures
            final(self).push_data_size == old(self).push_data_size,
            final(self).buffer@ == batch@ + old(self).buffer@,
    {
        let mut joined = batch;
        joined.append(&mut self.buffer);
        self.buffer = joined;
    }

    /// Hands back whatever remains — possibly nothing — for one final,
    /// unconditional flush, and leaves the buffer empty.
    pub fn final_flush(&mut self) -> (batch: Vec<T>)
        ensures
            final(self).push_data_size == old(self).push_data_size,
            batch@ == old(self).buffer@,
            final(self).buffer@ == Seq::<T>::empty(),
    {
        let batch = self.buffer.split_off(0);
        proof {
            assert(batch@ =~= old(self).buffer@);
            assert(self.buffer@ =~= Seq::<T>::empty());
        }
        batch
    }
}

} // verus!
