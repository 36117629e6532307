//! The tabular time-series value: one row per candle, with open, high,
//! low, close and volume columns and a timestamp column.

use vstd::prelude::*;

verus! {

/// Seconds since the Unix epoch.
pub type TimeStamp = u64;

/// The spec-level image of a [`Frame`]: one sequence per column.
pub struct FrameV {
    pub opens: Seq<i64>,
    pub highs: Seq<i64>,
    pub lows: Seq<i64>,
    pub closes: Seq<i64>,
    pub volumes: Seq<i64>,
    pub timestamps: Seq<TimeStamp>,
}

impl FrameV {
    /// All columns have the same number of rows.
    pub open spec fn wf(self) -> bool {
        &&& self.highs.len() == self.opens.len()
        &&& self.lows.len() == self.opens.len()
        &&& self.closes.len() == self.opens.len()
        &&& self.volumes.len() == self.opens.len()
        &&& self.timestamps.len() == self.opens.len()
    }
}

/// A table of candles, held column-wise. Prices and volumes are fixed-point
/// decimals; the invariant is that all columns have the same length.
#[derive(Debug)]
pub struct Frame {
    pub opens: Vec<i64>,
    pub highs: Vec<i64>,
    pub lows: Vec<i64>,
    pub closes: Vec<i64>,
    pub volumes: Vec<i64>,
    pub timestamps: Vec<TimeStamp>,
}

impl View for Frame {
    type V = FrameV;

    open spec fn view(&self) -> FrameV {
        FrameV {
            opens: self.opens@,
            highs: self.highs@,
            lows: self.lows@,
            closes: self.closes@,
            volumes: self.volumes@,
            timestamps: self.timestamps@,
        }
    }
}

impl Frame {
    /// Builds a frame from its columns, which must all have the same length.
    pub fn new(
        opens: Vec<i64>,
        highs: Vec<i64>,
        lows: Vec<i64>,
        closes: Vec<i64>,
        volumes: Vec<i64>,
        timestamps: Vec<TimeStamp>,
    ) -> (r: Frame)
        requires
            highs@.len() == opens@.len(),
            lows@.len() == opens@.len(),
            closes@.len() == opens@.len(),
            volumes@.len() == opens@.len(),
            timestamps@.len() == opens@.len(),
        ensures
            r@ == (FrameV {
                opens: opens@,
                highs: highs@,
                lows: lows@,
                closes: closes@,
                volumes: volumes@,
                timestamps: timestamps@,
            }),
            r@.wf(),
    {
        Frame { opens, highs, lows, closes, volumes, timestamps }
    }

    /// The number of candles.
    pub fn len(&self) -> (r: usize)
        ensures
            r == self@.opens.len(),
    {
        self.opens.len()
    }

    pub fn clone_frame(&self) -> (r: Frame)
        ensures
            r@ == self@,
    {
        let r = Frame {
            opens: self.opens.clone(),
            highs: self.highs.clone(),
            lows: self.lows.clone(),
            closes: self.closes.clone(),
            volumes: self.volumes.clone(),
            timestamps: self.timestamps.clone(),
        };
        assert(r.opens@ =~= self.opens@);
        assert(r.highs@ =~= self.highs@);
        assert(r.lows@ =~= self.lows@);
        assert(r.closes@ =~= self.closes@);
        assert(r.volumes@ =~= self.volumes@);
        assert(r.timestamps@ =~= self.timestamps@);
        r
    }
}

impl Default for Frame {
    /// The empty frame.
    fn default() -> (r: Frame)
        ensures
            r@.opens.len() == 0,
            r@.wf(),
    {
        Frame {
            opens: Vec::new(),
            highs: Vec::new(),
            lows: Vec::new(),
            closes: Vec::new(),
            volumes: Vec::new(),
            timestamps: Vec::new(),
        }
    }
}

} // verus!
