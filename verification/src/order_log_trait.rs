use vstd::prelude::*;
use crate::derivative_order_log::derivative_order_log_outcome;
use crate::order_log::order_log_outcome;
use crate::{Action, DateTime, DerivativeOrderLog, OrderLog, ParseOutcome, Price, Side, TimeOfDay};

verus! {

/// An order log line that an order book can hold.
pub trait MoexOrderLog: Sized + Send + Clone + Sync {
    type Timestamp: Eq + PartialEq + Ord + PartialOrd + Clone + Sized + Send + Sync;

    spec fn spec_timestamp(&self) -> Self::Timestamp;

    spec fn spec_ticker(&self) -> Seq<char>;

    spec fn spec_side(&self) -> Side;

    spec fn spec_price(&self) -> Price;

    spec fn spec_order_no(&self) -> u64;

    spec fn spec_volume(&self) -> i64;

    spec fn spec_action(&self) -> Action;

    spec fn spec_seq_num(&self) -> u64;

    /// The same line with `volume` in place of its volume.
    spec fn spec_with_volume(&self, volume: i64) -> Self;

    /// The lines that `new_from_str` reads.
    spec fn spec_accepts_line(s: Seq<char>) -> bool;

    /// `r` is what reading the line `s` gives.
    spec fn spec_reads_line(s: Seq<char>, r: Option<Self>) -> bool;

    /// Changing the volume of a line changes nothing else that an order book
    /// reads.
    proof fn lemma_with_volume(&self, volume: i64)
        ensures
            self.spec_with_volume(volume).spec_volume() == volume,
            self.spec_with_volume(volume).spec_order_no() == self.spec_order_no(),
            self.spec_with_volume(volume).spec_side() == self.spec_side(),
            self.spec_with_volume(volume).spec_price() == self.spec_price(),
    ;

    fn timestamp(&self) -> (r: &Self::Timestamp)
        ensures
            *r == self.spec_timestamp(),
    ;

    fn ticker(&self) -> (r: &str)
        ensures
            r@ == self.spec_ticker(),
    ;

    fn side(&self) -> (r: &Side)
        ensures
            *r == self.spec_side(),
    ;

    fn price(&self) -> (r: &Price)
        ensures
            *r == self.spec_price(),
    ;

    fn order_no(&self) -> (r: u64)
        ensures
            r == self.spec_order_no(),
    ;

    fn volume_mut(&mut self) -> (r: &mut i64)
        ensures
            *r == old(self).spec_volume(),
            *final(self) == old(self).spec_with_volume(*final(r)),
    ;

    fn volume(&self) -> (r: i64)
        ensures
            r == self.spec_volume(),
    ;

    fn new_from_str(s: &str) -> (r: Option<Self>)
        requires
            Self::spec_accepts_line(s@),
        ensures
            Self::spec_reads_line(s@, r),
    ;

    fn action(&self) -> (r: Action)
        ensures
            r == self.spec_action(),
    ;

    fn seq_num(&self) -> (r: u64)
        ensures
            r == self.spec_seq_num(),
    ;
}

impl MoexOrderLog for DerivativeOrderLog {
    type Timestamp = DateTime;

    open spec fn spec_timestamp(&self) -> DateTime {
        self.timestamp
    }

    open spec fn spec_ticker(&self) -> Seq<char> {
        self.name@
    }

    open spec fn spec_side(&self) -> Side {
        self.side
    }

    open spec fn spec_price(&self) -> Price {
        self.price
    }

    open spec fn spec_order_no(&self) -> u64 {
        self.id as u64
    }

    open spec fn spec_volume(&self) -> i64 {
        self.volume
    }

    open spec fn spec_action(&self) -> Action {
        self.action
    }

    open spec fn spec_seq_num(&self) -> u64 {
        self.id as u64
    }

    open spec fn spec_with_volume(&self, volume: i64) -> DerivativeOrderLog {
        DerivativeOrderLog { volume, ..*self }
    }

    open spec fn spec_accepts_line(s: Seq<char>) -> bool {
        true
    }

    open spec fn spec_reads_line(s: Seq<char>, r: Option<DerivativeOrderLog>) -> bool {
        match r {
            Some(log) => derivative_order_log_outcome(s) == Some(log@),
            None => derivative_order_log_outcome(s) is None,
        }
    }

    proof fn lemma_with_volume(&self, volume: i64) {
    }

    fn seq_num(&self) -> (r: u64) {
        self.id as u64
    }

    fn timestamp(&self) -> (r: &DateTime) {
        &self.timestamp
    }

    fn new_from_str(s: &str) -> (r: Option<DerivativeOrderLog>) {
        DerivativeOrderLog::new(s)
    }

    fn order_no(&self) -> (r: u64) {
        self.id as u64
    }

    fn price(&self) -> (r: &Price) {
        &self.price
    }

    fn side(&self) -> (r: &Side) {
        &self.side
    }

    fn ticker(&self) -> (r: &str) {
        self.name.as_str()
    }

    fn volume(&self) -> (r: i64) {
        self.volume
    }

    fn volume_mut(&mut self) -> (r: &mut i64) {
        &mut self.volume
    }

    fn action(&self) -> (r: Action) {
        self.action
    }
}

impl MoexOrderLog for OrderLog {
    type Timestamp = TimeOfDay;

    open spec fn spec_timestamp(&self) -> TimeOfDay {
        self.time
    }

    open spec fn spec_ticker(&self) -> Seq<char> {
        self.seccode@
    }

    open spec fn spec_side(&self) -> Side {
        self.buysell
    }

    open spec fn spec_price(&self) -> Price {
        self.price
    }

    open spec fn spec_order_no(&self) -> u64 {
        self.orderno
    }

    open spec fn spec_volume(&self) -> i64 {
        self.volume
    }

    open spec fn spec_action(&self) -> Action {
        self.action
    }

    open spec fn spec_seq_num(&self) -> u64 {
        self.no
    }

    open spec fn spec_with_volume(&self, volume: i64) -> OrderLog {
        OrderLog { volume, ..*self }
    }

    open spec fn spec_accepts_line(s: Seq<char>) -> bool {
        !(order_log_outcome(s) is Contradictory)
    }

    open spec fn spec_reads_line(s: Seq<char>, r: Option<OrderLog>) -> bool {
        match order_log_outcome(s) {
            ParseOutcome::Parsed(v) => r matches Some(l) && l@ == v,
            _ => r is None,
        }
    }

    proof fn lemma_with_volume(&self, volume: i64) {
    }

    fn seq_num(&self) -> (r: u64) {
        self.no
    }

    fn order_no(&self) -> (r: u64) {
        self.orderno
    }

    fn price(&self) -> (r: &Price) {
        &self.price
    }

    fn side(&self) -> (r: &Side) {
        &self.buysell
    }

    fn new_from_str(s: &str) -> (r: Option<OrderLog>) {
        OrderLog::new(s)
    }

    fn timestamp(&self) -> (r: &TimeOfDay) {
        &self.time
    }

    fn ticker(&self) -> (r: &str) {
        self.seccode.as_str()
    }

    fn volume(&self) -> (r: i64) {
        self.volume
    }

    fn volume_mut(&mut self) -> (r: &mut i64) {
        &mut self.volume
    }

    fn action(&self) -> (r: Action) {
        self.action
    }
}

} // verus!
