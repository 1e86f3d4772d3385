//! The decision side of one ticker's simulation: signals, position
//! transitions, and the per-bar record of what happened.
use vstd::prelude::*;

verus! {

/// What the strategy asks for at one bar.
#[derive(Clone, Copy, Debug, PartialEq, Eq, Structural)]
pub enum Signal {
    Sell,
    Hold,
    Buy,
}

/// The signal a raw strategy answer stands for: -1 sells, 1 buys, and
/// every other answer holds.
pub open spec fn signal_of(code: int) -> Signal {
    if code == -1 {
        Signal::Sell
    } else if code == 1 {
        Signal::Buy
    } else {
        Signal::Hold
    }
}

/// The integer form of a signal: -1, 0 or 1.
pub open spec fn code_of(s: Signal) -> int {
    match s {
        Signal::Sell => -1,
        Signal::Hold => 0,
        Signal::Buy => 1,
    }
}

impl Signal {
    /// Reads a strategy's answer; anything but -1 or 1 is a hold.
    pub fn from_code(code: i64) -> (r: Signal)
        ensures
            r == signal_of(code as int),
    {
        if code == -1 {
            Signal::Sell
        } else if code == 1 {
            Signal::Buy
        } else {
            Signal::Hold
        }
    }

    pub fn code(&self) -> (r: i32)
        ensures
            r as int == code_of(*self),
    {
        match self {
            Signal::Sell => -1,
            Signal::Hold => 0,
            Signal::Buy => 1,
        }
    }
}

/// Whether the ticker holds shares.
#[derive(Clone, Copy, Debug, PartialEq, Eq, Structural)]
pub enum Position {
    Flat,
    Long,
}

impl Position {
    /// The position indicator handed to the strategy: 1 when long, else 0.
    pub fn flag(&self) -> (r: i32)
        ensures
            r == (if *self == Position::Long { 1i32 } else { 0i32 }),
    {
        match self {
            Position::Flat => 0,
            Position::Long => 1,
        }
    }
}

/// What a bar does to the position.
#[derive(Clone, Copy, Debug, PartialEq, Eq, Structural)]
pub enum Fill {
    /// Flat and told to buy: the whole balance goes into shares.
    Open,
    /// Long and told to sell, at a profit.
    CloseWin,
    /// Long and told to sell, with no profit.
    CloseLoss,
    /// Any other combination leaves the position as it is.
    Stay,
}

/// The transition rule. `gain` tells whether selling now would realise a
/// strictly positive profit; it matters only when a long position closes.
pub open spec fn fill_of(pos: Position, sig: Signal, gain: bool) -> Fill {
    if pos == Position::Long && sig == Signal::Sell {
        if gain {
            Fill::CloseWin
        } else {
            Fill::CloseLoss
        }
    } else if pos == Position::Flat && sig == Signal::Buy {
        Fill::Open
    } else {
        Fill::Stay
    }
}

/// The position after a fill.
pub open spec fn position_after(pos: Position, fill: Fill) -> Position {
    match fill {
        Fill::Open => Position::Long,
        Fill::CloseWin | Fill::CloseLoss => Position::Flat,
        Fill::Stay => pos,
    }
}

pub fn decide(pos: Position, sig: Signal, gain: bool) -> (r: Fill)
    ensures
        r == fill_of(pos, sig, gain),
{
    match (pos, sig) {
        (Position::Long, Signal::Sell) => if gain {
            Fill::CloseWin
        } else {
            Fill::CloseLoss
        },
        (Position::Flat, Signal::Buy) => Fill::Open,
        _ => Fill::Stay,
    }
}

/// The bar that a running session asks the strategy about next. The
/// strategy sees the prices at indices `window_start..index` of the series,
/// never the price at `index` itself.
#[derive(Clone, Copy, Debug, PartialEq, Eq, Structural)]
pub struct Bar {
    /// Index of the bar in the whole price series.
    pub index: usize,
    /// First index of the trailing window.
    pub window_start: usize,
    /// Index of the bar among the simulated ones, as recorded in the markers.
    pub step: usize,
    /// The position indicator to hand to the strategy.
    pub flag: i32,
}

/// Whether a series of `len` prices is simulated with a trailing window of
/// `history` prices. The cutoff excludes a series of exactly
/// `history + 1` prices, although it would give one bar.
pub open spec fn simulated(len: int, history: int) -> bool {
    len > history + 1
}

/// The abstract state of one ticker's simulation.
pub struct SessionView {
    pub len: nat,
    pub history: nat,
    pub position: Position,
    /// The signal of each simulated bar, in order.
    pub signals: Seq<Signal>,
    /// Markers of the bars where a position opened.
    pub buys: Seq<usize>,
    /// Markers of the bars where a position closed at a profit.
    pub sell_wins: Seq<usize>,
    /// Markers of the bars where a position closed without profit.
    pub sell_losses: Seq<usize>,
}

/// Every entry is below `bound`, and the entries strictly increase.
pub open spec fn markers_below(m: Seq<usize>, bound: nat) -> bool {
    &&& forall|k: int| 0 <= k < m.len() ==> m[k] < bound
    &&& forall|j: int, k: int| 0 <= j < k < m.len() ==> m[j] < m[k]
}

impl SessionView {
    /// Index of the next bar to simulate.
    pub open spec fn cursor(self) -> nat {
        self.history + self.signals.len()
    }

    pub open spec fn finished(self) -> bool {
        self.cursor() == self.len
    }

    pub open spec fn periods(self) -> nat {
        self.signals.len()
    }

    /// Completed round trips: every close counts as one trade.
    pub open spec fn trades(self) -> nat {
        self.sell_wins.len() + self.sell_losses.len()
    }

    pub open spec fn wins(self) -> nat {
        self.sell_wins.len()
    }

    pub open spec fn wf(self) -> bool {
        &&& simulated(self.len as int, self.history as int)
        &&& self.cursor() <= self.len
        &&& self.len <= usize::MAX
        &&& self.buys.len() == self.trades() + (if self.position == Position::Long { 1nat } else { 0nat })
        &&& markers_below(self.buys, self.signals.len())
        &&& markers_below(self.sell_wins, self.signals.len())
        &&& markers_below(self.sell_losses, self.signals.len())
    }

    /// A fresh simulation: flat, nothing recorded.
    pub open spec fn initial(len: nat, history: nat) -> SessionView {
        SessionView {
            len,
            history,
            position: Position::Flat,
            signals: Seq::empty(),
            buys: Seq::empty(),
            sell_wins: Seq::empty(),
            sell_losses: Seq::empty(),
        }
    }

    /// The state after one bar with signal `sig`; `gain` as in `fill_of`.
    pub open spec fn advance(self, sig: Signal, gain: bool) -> SessionView {
        let fill = fill_of(self.position, sig, gain);
        let at = self.signals.len() as usize;
        SessionView {
            len: self.len,
            history: self.history,
            position: position_after(self.position, fill),
            signals: self.signals.push(sig),
            buys: if fill == Fill::Open { self.buys.push(at) } else { self.buys },
            sell_wins: if fill == Fill::CloseWin { self.sell_wins.push(at) } else { self.sell_wins },
            sell_losses: if fill == Fill::CloseLoss { self.sell_losses.push(at) } else { self.sell_losses },
        }
    }
}

/// The state reached from `v` after the bars `steps`, each a signal and
/// whether closing at that bar would realise a profit.
pub open spec fn replay(v: SessionView, steps: Seq<(Signal, bool)>) -> SessionView
    decreases steps.len(),
{
    if steps.len() == 0 {
        v
    } else {
        replay(v, steps.drop_last()).advance(steps.last().0, steps.last().1)
    }
}

/// Simulating one more bar of an unfinished simulation keeps it well formed.
pub proof fn lemma_advance_wf(v: SessionView, sig: Signal, gain: bool)
    requires
        v.wf(),
        !v.finished(),
    ensures
        v.advance(sig, gain).wf(),
        v.advance(sig, gain).periods() == v.periods() + 1,
{
    let w = v.advance(sig, gain);
    let n = v.signals.len();
    assert(markers_below(w.buys, n + 1));
    assert(markers_below(w.sell_wins, n + 1));
    assert(markers_below(w.sell_losses, n + 1));
}

/// Whatever the strategy answers, a simulation of `len` prices with a
/// window of `history` prices stays well formed, records one period per
/// bar, and is finished exactly when `len - history` bars are simulated.
pub proof fn lemma_replay_periods(len: nat, history: nat, steps: Seq<(Signal, bool)>)
    requires
        simulated(len as int, history as int),
        steps.len() <= len - history,
        len <= usize::MAX,
    ensures
        replay(SessionView::initial(len, history), steps).wf(),
        replay(SessionView::initial(len, history), steps).len == len,
        replay(SessionView::initial(len, history), steps).history == history,
        replay(SessionView::initial(len, history), steps).periods() == steps.len(),
        replay(SessionView::initial(len, history), steps).finished() <==> steps.len() == len - history,
    decreases steps.len(),
{
    if steps.len() > 0 {
        let pre = steps.drop_last();
        lemma_replay_periods(len, history, pre);
        lemma_advance_wf(replay(SessionView::initial(len, history), pre), steps.last().0, steps.last().1);
    }
}

/// A finished simulation has simulated exactly `len - history` bars, and
/// its series had more than `history + 1` prices.
pub proof fn lemma_finished_periods(v: SessionView)
    requires
        v.wf(),
        v.finished(),
    ensures
        v.periods() == v.len - v.history,
        v.len > v.history + 1,
{
}

/// In every reachable state the counts are ordered: winning trades, trades,
/// opened positions and simulated bars, each at most the next.
pub proof fn lemma_counts_ordered(v: SessionView)
    requires
        v.wf(),
    ensures
        v.wins() <= v.trades(),
        v.trades() <= v.buys.len(),
        v.buys.len() <= v.periods(),
{
    lemma_marker_count(v.buys, v.signals.len());
}

/// One ticker's simulation, as far as it is decided by signals: the
/// position, the signal of every bar and the markers of its fills. The
/// money side (balance, shares, entry price) is kept by the caller, which
/// applies each returned `Fill`.
pub struct Session {
    len: usize,
    history: usize,
    position: Position,
    signals: Vec<Signal>,
    buys: Vec<usize>,
    sell_wins: Vec<usize>,
    sell_losses: Vec<usize>,
}

impl View for Session {
    type V = SessionView;

    closed spec fn view(&self) -> SessionView {
        SessionView {
            len: self.len as nat,
            history: self.history as nat,
            position: self.position,
            signals: self.signals@,
            buys: self.buys@,
            sell_wins: self.sell_wins@,
            sell_losses: self.sell_losses@,
        }
    }
}

fn push_marker(m: &mut Vec<usize>, at: usize, bound: Ghost<nat>)
    requires
        markers_below(old(m)@, bound@),
        at == bound@,
    ensures
        final(m)@ == old(m)@.push(at),
        markers_below(final(m)@, bound@ + 1),
{
    m.push(at);
}

impl Session {
    /// Starts the simulation of a series of `len` prices with a trailing
    /// window of `history` prices, or gives `None` when the series is too
    /// short to be simulated.
    pub fn start(len: usize, history: usize) -> (r: Option<Session>)
        ensures
            r is None <==> !simulated(len as int, history as int),
            r matches Some(s) ==> s@ == SessionView::initial(len as nat, history as nat) && s@.wf(),
    {
        if len <= history || len - history <= 1 {
            None
        } else {
            Some(Session {
                len,
                history,
                position: Position::Flat,
                signals: Vec::new(),
                buys: Vec::new(),
                sell_wins: Vec::new(),
                sell_losses: Vec::new(),
            })
        }
    }

    /// The next bar to simulate, or `None` once every bar is done.
    pub fn next_bar(&self) -> (r: Option<Bar>)
        requires
            self@.wf(),
        ensures
            r is None <==> self@.finished(),
            r matches Some(b) ==> {
                &&& b.index == self@.cursor()
                &&& b.window_start == self@.cursor() - self@.history
                &&& b.step == self@.periods()
                &&& b.flag == (if self@.position == Position::Long { 1i32 } else { 0i32 })
            },
    {
        let at = self.history + self.signals.len();
        if at == self.len {
            None
        } else {
            Some(Bar { index: at, window_start: self.signals.len(), step: self.signals.len(), flag: self.position.flag() })
        }
    }

    /// Records the strategy's answer `code` for the next bar and applies the
    /// transition rule. `gain` tells whether closing at this bar's price
    /// realises a strictly positive profit.
    pub fn record(&mut self, code: i64, gain: bool) -> (fill: Fill)
        requires
            old(self)@.wf(),
            !old(self)@.finished(),
        ensures
            fill == fill_of(old(self)@.position, signal_of(code as int), gain),
            final(self)@ == old(self)@.advance(signal_of(code as int), gain),
            final(self)@.wf(),
    {
        proof {
            lemma_advance_wf(self@, signal_of(code as int), gain);
        }
        let sig = Signal::from_code(code);
        let fill = decide(self.position, sig, gain);
        let at = self.signals.len();
        let ghost bound = self.signals@.len();
        match fill {
            Fill::Open => push_marker(&mut self.buys, at, Ghost(bound)),
            Fill::CloseWin => push_marker(&mut self.sell_wins, at, Ghost(bound)),
            Fill::CloseLoss => push_marker(&mut self.sell_losses, at, Ghost(bound)),
            Fill::Stay => {},
        }
        self.position = match fill {
            Fill::Open => Position::Long,
            Fill::CloseWin | Fill::CloseLoss => Position::Flat,
            Fill::Stay => self.position,
        };
        self.signals.push(sig);
        fill
    }

    pub fn position(&self) -> (r: Position)
        ensures
            r == self@.position,
    {
        self.position
    }

    pub fn is_finished(&self) -> (r: bool)
        requires
            self@.wf(),
        ensures
            r == self@.finished(),
    {
        self.history + self.signals.len() == self.len
    }

    /// Bars simulated so far.
    pub fn periods(&self) -> (r: usize)
        ensures
            r == self@.periods(),
    {
        self.signals.len()
    }

    /// Closed positions so far.
    pub fn trades(&self) -> (r: usize)
        requires
            self@.wf(),
        ensures
            r == self@.trades(),
    {
        proof {
            lemma_marker_count(self.buys@, self.signals@.len());
        }
        self.sell_wins.len() + self.sell_losses.len()
    }

    /// Positions closed at a profit so far.
    pub fn wins(&self) -> (r: usize)
        ensures
            r == self@.wins(),
    {
        self.sell_wins.len()
    }

    /// The signal of each simulated bar as -1, 0 or 1.
    pub fn signal_codes(&self) -> (r: Vec<i32>)
        ensures
            r@.len() == self@.signals.len(),
            forall|k: int| 0 <= k < r@.len() ==> r@[k] as int == code_of(#[trigger] self@.signals[k]),
    {
        let mut out: Vec<i32> = Vec::new();
        for k in 0..self.signals.len()
            invariant
                out@.len() == k,
                forall|j: int| 0 <= j < k ==> out@[j] as int == code_of(#[trigger] self@.signals[j]),
        {
            out.push(self.signals[k].code());
        }
        out
    }

    pub fn buy_indices(&self) -> (r: Vec<usize>)
        ensures
            r@ == self@.buys,
    {
        copy_markers(&self.buys)
    }

    pub fn sell_win_indices(&self) -> (r: Vec<usize>)
        ensures
            r@ == self@.sell_wins,
    {
        copy_markers(&self.sell_wins)
    }

    pub fn sell_loss_indices(&self) -> (r: Vec<usize>)
        ensures
            r@ == self@.sell_losses,
    {
        copy_markers(&self.sell_losses)
    }
}

fn copy_markers(m: &Vec<usize>) -> (r: Vec<usize>)
    ensures
        r@ == m@,
{
    let mut out: Vec<usize> = Vec::new();
    for k in 0..m.len()
        invariant
            out@ == m@.subrange(0, k as int),
    {
        out.push(m[k]);
        proof {
            assert(out@ =~= m@.subrange(0, k + 1));
        }
    }
    proof {
        assert(m@.subrange(0, m@.len() as int) =~= m@);
    }
    out
}

/// Strictly increasing markers below `bound` number at most `bound`.
proof fn lemma_marker_count(m: Seq<usize>, bound: nat)
    requires
        markers_below(m, bound),
    ensures
        m.len() <= bound,
    decreases m.len(),
{
    if m.len() > 0 {
        let pre = m.drop_last();
        assert(markers_below(pre, m.last() as nat)) by {
            assert forall|k: int| 0 <= k < pre.len() implies pre[k] < m.last() by {
                assert(m[k] < m[m.len() - 1]);
            }
        }
        lemma_marker_count(pre, m.last() as nat);
    }
}

} // verus!
