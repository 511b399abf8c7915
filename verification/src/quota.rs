//! The bound on checkpoints that were received and are not processed yet.
use vstd::prelude::*;

verus! {

/// The most checkpoints that may be outstanding.
pub const CHECKPOINT_INGRESS_REQUEST_LIMIT: usize = 1_024;

/// The most bytes that outstanding checkpoints may hold.
pub const CHECKPOINT_INGRESS_BYTE_LIMIT: usize = 67_108_864;

/// How much of the quota is taken.
pub struct CheckpointIngressQuota {
    pub request_limit: usize,
    pub byte_limit: usize,
    pub requests: usize,
    pub bytes: usize,
}

/// Why a reservation was refused, with the state it was refused in.
#[derive(Debug)]
pub struct CheckpointIngressQuotaError {
    pub reason: &'static str,
    pub requested_bytes: usize,
    pub outstanding_requests: usize,
    pub outstanding_bytes: usize,
    pub request_limit: usize,
    pub byte_limit: usize,
}

/// A part of the quota that was granted. It is given back by [`CheckpointIngressQuota::release`].
#[derive(Debug)]
pub struct CheckpointIngressReservation {
    pub body_bytes: usize,
}

impl CheckpointIngressReservation {
    /// How many bytes were granted.
    pub fn body_bytes(&self) -> (r: usize)
        ensures
            r == self.body_bytes,
    {
        self.body_bytes
    }
}

impl CheckpointIngressQuota {
    /// No more is taken than there is.
    pub open spec fn wf(self) -> bool {
        self.requests <= self.request_limit && self.bytes <= self.byte_limit
    }

    /// Why a request for `body_bytes` must be refused, if it must. Where both
    /// limits would refuse it, the number of requests is named.
    pub open spec fn refusal(self, body_bytes: usize) -> Option<Seq<char>> {
        if self.requests >= self.request_limit {
            Some("request_limit"@)
        } else if self.bytes + body_bytes > self.byte_limit {
            Some("byte_limit"@)
        } else {
            None
        }
    }

    /// The quota with one more request of `body_bytes`.
    pub open spec fn taken(self, body_bytes: usize) -> CheckpointIngressQuota {
        CheckpointIngressQuota {
            requests: (self.requests + 1) as usize,
            bytes: (self.bytes + body_bytes) as usize,
            ..self
        }
    }

    /// The quota with one request of `body_bytes` fewer, never less than nothing.
    pub open spec fn given_back(self, body_bytes: usize) -> CheckpointIngressQuota {
        CheckpointIngressQuota {
            requests: (if self.requests > 0 {
                self.requests - 1
            } else {
                0
            }) as usize,
            bytes: (if self.bytes >= body_bytes {
                self.bytes - body_bytes
            } else {
                0
            }) as usize,
            ..self
        }
    }

    /// An untouched quota.
    pub fn new(request_limit: usize, byte_limit: usize) -> (r: CheckpointIngressQuota)
        ensures
            r == (CheckpointIngressQuota { request_limit, byte_limit, requests: 0, bytes: 0 }),
            r.wf(),
    {
        CheckpointIngressQuota { request_limit, byte_limit, requests: 0, bytes: 0 }
    }

    /// Takes room for one checkpoint, or says why there is none.
    pub fn reserve(&mut self, body_bytes: usize) -> (r: Result<
        CheckpointIngressReservation,
        CheckpointIngressQuotaError,
    >)
        requires
            old(self).wf(),
        ensures
            final(self).wf(),
            r is Ok <==> old(self).refusal(body_bytes) is None,
            r is Ok ==> r->Ok_0.body_bytes == body_bytes && *final(self) == old(self).taken(
                body_bytes,
            ),
            r is Err ==> *final(self) == *old(self) && r->Err_0.reason@ == old(self).refusal(
                body_bytes,
            )->0 && r->Err_0.requested_bytes == body_bytes && r->Err_0.outstanding_requests
                == old(self).requests && r->Err_0.outstanding_bytes == old(self).bytes
                && r->Err_0.request_limit == old(self).request_limit && r->Err_0.byte_limit == old(
                self,
            ).byte_limit,
    {
        let reason: Option<&'static str> = if self.requests >= self.request_limit {
            Some("request_limit")
        } else if body_bytes > self.byte_limit.saturating_sub(self.bytes) {
            Some("byte_limit")
        } else {
            None
        };
        if let Some(reason) = reason {
            return Err(
                CheckpointIngressQuotaError {
                    reason,
                    requested_bytes: body_bytes,
                    outstanding_requests: self.requests,
                    outstanding_bytes: self.bytes,
                    request_limit: self.request_limit,
                    byte_limit: self.byte_limit,
                },
            );
        }
        self.requests = self.requests + 1;
        self.bytes = self.bytes + body_bytes;
        Ok(CheckpointIngressReservation { body_bytes })
    }

    /// Gives a reservation back.
    pub fn release(&mut self, reservation: CheckpointIngressReservation)
        ensures
            *final(self) == old(self).given_back(reservation.body_bytes),
            old(self).wf() ==> final(self).wf(),
    {
        self.requests = self.requests.saturating_sub(1);
        self.bytes = self.bytes.saturating_sub(reservation.body_bytes);
    }

    /// How many checkpoints are outstanding, and how many bytes they hold.
    pub fn outstanding(&self) -> (r: (usize, usize))
        ensures
            r == (self.requests, self.bytes),
    {
        (self.requests, self.bytes)
    }
}

/// Giving a reservation back undoes it.
pub proof fn law_release_undoes_reserve(quota: CheckpointIngressQuota, body_bytes: usize)
    requires
        quota.wf(),
        quota.refusal(body_bytes) is None,
    ensures
        quota.taken(body_bytes).wf(),
        quota.taken(body_bytes).given_back(body_bytes) == quota,
{
}

/// A quota that refuses a request refuses every larger one too.
pub proof fn law_refusals_grow_with_size(quota: CheckpointIngressQuota, small: usize, large: usize)
    requires
        small <= large,
        quota.refusal(small) is Some,
    ensures
        quota.refusal(large) is Some,
{
}

} // verus!
