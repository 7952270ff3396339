//! The downloads of a stage: a bounded number of them at a time, and what a failure
//! means for the rest.

use crate::download::AssetDownload;
use vstd::prelude::*;

verus! {

/// What happens to the stage when an asset cannot be downloaded.
#[derive(Debug, Clone, Copy, PartialEq, Eq, Structural)]
pub enum FailurePolicy {
    /// The failed request is dropped, and the downloads go on.
    Continue,
    /// No further download is started, and the stage fails.
    Abort,
}

/// The stage has failed: an asset could not be downloaded, and the policy does not
/// allow to go on without it.
#[derive(Debug, Clone, Copy, PartialEq, Eq, Structural)]
pub struct DownloadFailed;

/// What the downloads of a stage came to.
#[derive(Debug)]
pub struct Downloaded {
    /// The requests that were downloaded.
    pub assets: Vec<AssetDownload>,
    /// How many requests failed, which the user is warned of where it is not zero.
    pub failed: usize,
}

/// What the stage comes to when `done` of `total` requests were downloaded: under
/// `Continue` the stage succeeds with what there is, under `Abort` only when nothing is
/// missing.
pub open spec fn outcome(total: nat, done: nat, policy: FailurePolicy) -> Result<nat, DownloadFailed> {
    if done < total {
        match policy {
            FailurePolicy::Continue => Ok((total - done) as nat),
            FailurePolicy::Abort => Err(DownloadFailed),
        }
    } else {
        Ok(0)
    }
}

/// Decides what the downloads of a stage came to, of which `total` were asked for and
/// `downloaded` succeeded.
pub fn download_assets(total: usize, downloaded: Vec<AssetDownload>, policy: FailurePolicy) -> (r:
    Result<Downloaded, DownloadFailed>)
    ensures
        match (r, outcome(total as nat, downloaded@.len(), policy)) {
            (Ok(d), Ok(failed)) => d.assets == downloaded && d.failed == failed,
            (Err(_), Err(_)) => true,
            _ => false,
        },
{
    if downloaded.len() < total {
        match policy {
            FailurePolicy::Continue => {
                let failed = total - downloaded.len();
                Ok(Downloaded { assets: downloaded, failed })
            },
            FailurePolicy::Abort => Err(DownloadFailed),
        }
    } else {
        Ok(Downloaded { assets: downloaded, failed: 0 })
    }
}

/// The warning for `failed` downloads that did not stop the stage.
pub open spec fn failed_warning(failed: Seq<char>, one: bool) -> Seq<char> {
    failed + " asset download"@ + if one {
        Seq::empty()
    } else {
        "s"@
    } + " failed, continuing anyway."@
}

/// The warning for `failed` downloads that did not stop the stage.
pub fn warn_failed(failed: usize) -> (r: String)
    ensures
        r@ == failed_warning(crate::text::decimal(failed as nat), failed == 1),
{
    let mut message = crate::text::decimal_string(failed as u64);
    message.append(" asset download");
    if failed != 1 {
        message.append("s");
    }
    message.append(" failed, continuing anyway.");
    message
}

/// What the pool asks of the one who runs the downloads.
#[derive(Debug)]
pub enum PoolAction {
    /// Start the download of this request.
    Start(AssetDownload),
    /// Wait for a download that is under way to end.
    Wait,
    /// Nothing is left to do: ask the pool what the stage came to.
    Finish,
}

/// The downloads of a stage. At most `limit` of them are under way at a time. Under
/// [`FailurePolicy::Abort`] the first failure stops the pool from starting any further
/// download: those under way may end, those that wait are dropped.
#[derive(Debug)]
pub struct DownloadPool {
    pending: Vec<AssetDownload>,
    in_flight: usize,
    limit: usize,
    policy: FailurePolicy,
    aborted: bool,
    done: Vec<AssetDownload>,
    failed: usize,
    total: usize,
}

/// What a [`DownloadPool`] holds.
pub struct DownloadPoolV {
    pub pending: Seq<AssetDownload>,
    pub in_flight: nat,
    pub limit: nat,
    pub policy: FailurePolicy,
    pub aborted: bool,
    pub done: Seq<AssetDownload>,
    pub failed: nat,
    pub total: nat,
}

impl DownloadPoolV {
    /// Whether the pool is in order: no more downloads are under way than the limit
    /// allows, and every request is accounted for, as waiting, under way, downloaded,
    /// failed, or dropped after a failure that stopped the pool.
    pub open spec fn wf(self) -> bool {
        &&& self.limit > 0
        &&& self.in_flight <= self.limit
        &&& self.pending.len() + self.in_flight + self.done.len() + self.failed <= self.total
        &&& !self.aborted ==> self.pending.len() + self.in_flight + self.done.len() + self.failed
            == self.total
        &&& self.aborted ==> self.policy == FailurePolicy::Abort && self.failed > 0
            && self.pending.len() == 0
        &&& self.policy == FailurePolicy::Abort && self.failed > 0 ==> self.aborted
    }

    /// Whether a download may be started.
    pub open spec fn may_start(self) -> bool {
        !self.aborted && self.in_flight < self.limit && self.pending.len() > 0
    }
}

impl View for DownloadPool {
    type V = DownloadPoolV;

    closed spec fn view(&self) -> DownloadPoolV {
        DownloadPoolV {
            pending: self.pending@,
            in_flight: self.in_flight as nat,
            limit: self.limit as nat,
            policy: self.policy,
            aborted: self.aborted,
            done: self.done@,
            failed: self.failed as nat,
            total: self.total as nat,
        }
    }
}

impl DownloadPool {
    /// A pool for the requests `assets`, of which at most `limit` are downloaded at a
    /// time.
    pub fn new(assets: Vec<AssetDownload>, limit: usize, policy: FailurePolicy) -> (r: DownloadPool)
        requires
            limit > 0,
        ensures
            r@.wf(),
            r@ == (DownloadPoolV {
                pending: assets@,
                in_flight: 0,
                limit: limit as nat,
                policy,
                aborted: false,
                done: Seq::empty(),
                failed: 0,
                total: assets@.len(),
            }),
    {
        let total = assets.len();
        DownloadPool {
            pending: assets,
            in_flight: 0,
            limit,
            policy,
            aborted: false,
            done: Vec::new(),
            failed: 0,
            total,
        }
    }

    /// What is to be done next: a download is started while the pool may start one; else
    /// the pool waits for those under way; and when none is under way, the stage is
    /// over.
    pub fn next(&mut self) -> (r: PoolAction)
        requires
            old(self)@.wf(),
        ensures
            final(self)@.wf(),
            match r {
                PoolAction::Start(asset) => old(self)@.may_start() && asset == old(self)@.pending[0]
                    && final(self)@ == (DownloadPoolV {
                    pending: old(self)@.pending.drop_first(),
                    in_flight: old(self)@.in_flight + 1,
                    ..old(self)@
                }),
                PoolAction::Wait => !old(self)@.may_start() && old(self)@.in_flight > 0 && final(self)@ == old(self)@,
                PoolAction::Finish => !old(self)@.may_start() && old(self)@.in_flight == 0
                    && final(self)@ == old(self)@,
            },
    {
        if !self.aborted && self.in_flight < self.limit && self.pending.len() > 0 {
            let asset = self.pending.remove(0);
            self.in_flight = self.in_flight + 1;
            assert(self.pending@ =~= old(self)@.pending.drop_first());
            PoolAction::Start(asset)
        } else if self.in_flight > 0 {
            PoolAction::Wait
        } else {
            PoolAction::Finish
        }
    }

    /// Tells the pool that a download has ended: with the request where it succeeded,
    /// and with nothing where it failed. A failure under [`FailurePolicy::Abort`] stops
    /// the pool, and drops the requests that wait.
    pub fn completed(&mut self, result: Option<AssetDownload>)
        requires
            old(self)@.wf(),
            old(self)@.in_flight > 0,
        ensures
            final(self)@.wf(),
            final(self)@ == match result {
                Some(asset) => DownloadPoolV {
                    in_flight: (old(self)@.in_flight - 1) as nat,
                    done: old(self)@.done.push(asset),
                    ..old(self)@
                },
                None => if old(self)@.policy == FailurePolicy::Abort {
                    DownloadPoolV {
                        in_flight: (old(self)@.in_flight - 1) as nat,
                        failed: old(self)@.failed + 1,
                        aborted: true,
                        pending: Seq::empty(),
                        ..old(self)@
                    }
                } else {
                    DownloadPoolV {
                        in_flight: (old(self)@.in_flight - 1) as nat,
                        failed: old(self)@.failed + 1,
                        ..old(self)@
                    }
                },
            },
    {
        self.in_flight = self.in_flight - 1;
        match result {
            Some(asset) => {
                self.done.push(asset);
            },
            None => {
                self.failed = self.failed + 1;
                match self.policy {
                    FailurePolicy::Abort => {
                        self.aborted = true;
                        self.pending = Vec::new();
                    },
                    FailurePolicy::Continue => {},
                }
            },
        }
    }

    /// What the stage came to, once no download is under way and none may be started.
    pub fn finish(self) -> (r: Result<Downloaded, DownloadFailed>)
        requires
            self@.wf(),
        ensures
            match (r, outcome(self@.total, self@.done.len(), self@.policy)) {
                (Ok(d), Ok(failed)) => d.assets@ == self@.done && d.failed == failed,
                (Err(_), Err(_)) => true,
                _ => false,
            },
            self@.policy == FailurePolicy::Abort ==> (r is Err <==> self@.done.len()
                < self@.total),
            self@.policy == FailurePolicy::Continue ==> r is Ok,
    {
        download_assets(self.total, self.done, self.policy)
    }
}

} // verus!
