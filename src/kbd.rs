use vstd::prelude::*;

verus! {

/// Number of column lines of the key matrix.
pub const N_COLS: usize = 3;

/// Number of row lines of the key matrix.
pub const N_ROWS: usize = 4;

/// Scan cadence of the keypad, in column scans per second.
pub const SCAN_SPEED_HZ: u64 = 400;

/// Settle time between driving a column and sampling the rows.
pub const SCAN_READ_DELAY_MICROS: u64 = 2;

/// Consecutive agreeing samples needed before a level is confirmed.
pub const DEBOUNCE_TICKS: u8 = 10;

/// One physical switch of the matrix.
#[derive(Clone, Copy, Debug, PartialEq, Eq, Structural)]
pub struct Key {
    pub col: u8,
    pub row: u8,
}

/// The printed label of the key at `(col, row)` on a numeric keypad layout.
pub open spec fn label_of(col: u8, row: u8) -> char {
    if row == 0 && col == 0 { '1' }
    else if row == 0 && col == 1 { '2' }
    else if row == 0 && col == 2 { '3' }
    else if row == 1 && col == 0 { '4' }
    else if row == 1 && col == 1 { '5' }
    else if row == 1 && col == 2 { '6' }
    else if row == 2 && col == 0 { '7' }
    else if row == 2 && col == 1 { '8' }
    else if row == 2 && col == 2 { '9' }
    else if row == 3 && col == 0 { '*' }
    else if row == 3 && col == 1 { '0' }
    else if row == 3 && col == 2 { '#' }
    else { '?' }
}

impl Key {
    /// A key lies on the matrix.
    pub open spec fn on_grid(self) -> bool {
        (self.col as int) < N_COLS && (self.row as int) < N_ROWS
    }

    /// The label printed on this key; `'?'` for a position off the matrix.
    pub fn char(self) -> (c: char)
        ensures
            c == label_of(self.col, self.row),
    {
        match (self.col, self.row) {
            (0, 0) => '1',
            (1, 0) => '2',
            (2, 0) => '3',
            (0, 1) => '4',
            (1, 1) => '5',
            (2, 1) => '6',
            (0, 2) => '7',
            (1, 2) => '8',
            (2, 2) => '9',
            (0, 3) => '*',
            (1, 3) => '0',
            (2, 3) => '#',
            _ => '?',
        }
    }
}

/// A debounced, stable transition of one key.
#[derive(Clone, Copy, Debug, PartialEq, Eq, Structural)]
pub enum KeyEvent {
    KeyDown(Key),
    KeyUp(Key),
}


/// Whether bit `r` of `bits` is set.
pub open spec fn bit_of(bits: u8, r: u8) -> bool {
    (bits >> r) & 1u8 == 1u8
}

proof fn lemma_bit_update(b: u8, r: u8, s: u8)
    by (bit_vector)
    requires
        r < 8,
        s < 8,
    ensures
        bit_of(b | (1u8 << r), s) == (s == r || bit_of(b, s)),
        bit_of(b & !(1u8 << r), s) == (s != r && bit_of(b, s)),
{
}

proof fn lemma_low_bits_any(b: u8)
    by (bit_vector)
    ensures
        (b & 15u8 != 0u8) == (bit_of(b, 0) || bit_of(b, 1) || bit_of(b, 2) || bit_of(b, 3)),
{
}

proof fn lemma_zero_bits(s: u8)
    by (bit_vector)
    requires
        s < 8,
    ensures
        !bit_of(0u8, s),
{
}

/// The level of every row line of one column, sampled in one scan cycle:
/// bit `r` is set iff row `r` reads active.
#[derive(Clone, Copy, Debug, PartialEq, Eq, Structural)]
pub struct ColumnState {
    bits: u8,
}

impl View for ColumnState {
    type V = Seq<bool>;

    closed spec fn view(&self) -> Seq<bool> {
        Seq::new(N_ROWS as nat, |r: int| bit_of(self.bits, r as u8))
    }
}

impl ColumnState {
    /// No row active.
    pub fn zero() -> (s: ColumnState)
        ensures
            s@ == Seq::new(N_ROWS as nat, |r: int| false),
    {
        let s = ColumnState { bits: 0 };
        proof {
            assert forall|r: int| 0 <= r < N_ROWS implies !#[trigger] bit_of(0u8, r as u8) by {
                lemma_zero_bits(r as u8);
            }
            assert(s@ =~= Seq::new(N_ROWS as nat, |r: int| false));
        }
        s
    }

    /// A column state from a raw mask; bits at or above `N_ROWS` are ignored.
    pub fn from_bits(bits: u8) -> (s: ColumnState)
        ensures
            s@ == Seq::new(N_ROWS as nat, |r: int| bit_of(bits, r as u8)),
    {
        ColumnState { bits }
    }

    /// The row levels as a mask of `N_ROWS` bits.
    pub fn bits(&self) -> (b: u8)
        ensures
            b < 16,
            forall|r: int| 0 <= r < N_ROWS ==> bit_of(b, r as u8) == self@[r],
    {
        let b = self.bits & 15u8;
        proof {
            let x = self.bits;
            assert(b < 16 && bit_of(b, 0) == bit_of(x, 0) && bit_of(b, 1) == bit_of(x, 1)
                && bit_of(b, 2) == bit_of(x, 2) && bit_of(b, 3) == bit_of(x, 3)) by (bit_vector)
                requires
                    b == x & 15u8,
            ;
        }
        b
    }

    /// The level of row `r`.
    pub fn get(&self, r: usize) -> (v: bool)
        requires
            r < N_ROWS,
        ensures
            v == self@[r as int],
    {
        (self.bits >> (r as u8)) & 1u8 == 1u8
    }

    /// Sets the level of row `r`.
    pub fn set(&mut self, r: usize, v: bool)
        requires
            r < N_ROWS,
        ensures
            final(self)@ == old(self)@.update(r as int, v),
    {
        let old_bits = self.bits;
        let mask: u8 = 1u8 << (r as u8);
        if v {
            self.bits = self.bits | mask;
        } else {
            self.bits = self.bits & !mask;
        }
        proof {
            assert forall|s: int| 0 <= s < N_ROWS implies #[trigger] bit_of(self.bits, s as u8) == (
            if s == r {
                v
            } else {
                bit_of(old_bits, s as u8)
            }) by {
                lemma_bit_update(old_bits, r as u8, s as u8);
            }
            assert(self@ =~= old(self)@.update(r as int, v));
        }
    }

    /// Whether any row is active.
    pub fn any(&self) -> (b: bool)
        ensures
            b == exists|r: int| 0 <= r < N_ROWS && self@[r],
    {
        proof {
            lemma_low_bits_any(self.bits);
            if self.bits & 15u8 != 0u8 {
                if bit_of(self.bits, 0) {
                    assert(self@[0]);
                } else if bit_of(self.bits, 1) {
                    assert(self@[1]);
                } else if bit_of(self.bits, 2) {
                    assert(self@[2]);
                } else {
                    assert(self@[3]);
                }
            }
        }
        self.bits & 15u8 != 0u8
    }
}


/// What the debounce filter keeps for one key.
#[derive(Clone, Copy, Debug, PartialEq, Eq, Structural)]
pub struct KeyState {
    /// The last reported level.
    pub stable: bool,
    /// The level currently being confirmed.
    pub staging: bool,
    /// Consecutive samples that agreed with `staging`, saturating at `DEBOUNCE_TICKS`.
    pub ticks: u8,
}

impl KeyState {
    /// The state of every key at boot: released, nothing being confirmed.
    pub open spec fn released() -> KeyState {
        KeyState { stable: false, staging: false, ticks: 0 }
    }

    /// Whether the sample `new` completes a confirmed change of level.
    pub open spec fn reports(self, new: bool) -> bool {
        new == self.staging && self.ticks >= DEBOUNCE_TICKS && new != self.stable
    }

    /// The state after one raw sample `new`.
    pub open spec fn step(self, new: bool) -> KeyState {
        if new != self.staging {
            KeyState { stable: self.stable, staging: new, ticks: 0 }
        } else if self.ticks < DEBOUNCE_TICKS {
            KeyState { stable: self.stable, staging: self.staging, ticks: (self.ticks + 1) as u8 }
        } else {
            KeyState { stable: new, staging: self.staging, ticks: self.ticks }
        }
    }
}

/// The debounce state of the keys of one column.
#[derive(Clone, Copy, Debug)]
pub struct ColumnUpdate {
    stable_state: ColumnState,
    staging_state: ColumnState,
    tick_counts: [u8; N_ROWS],
}

/// The rows of one column whose level was confirmed to change in one cycle.
#[derive(Clone, Copy, Debug)]
pub struct ColumnUpdateResult {
    pub pressed_keys: ColumnState,
    pub released_keys: ColumnState,
}

impl View for ColumnUpdate {
    type V = Seq<KeyState>;

    closed spec fn view(&self) -> Seq<KeyState> {
        Seq::new(
            N_ROWS as nat,
            |r: int|
                KeyState {
                    stable: self.stable_state@[r],
                    staging: self.staging_state@[r],
                    ticks: self.tick_counts@[r],
                },
        )
    }
}

impl ColumnUpdate {
    /// Debounce state made of the reported levels, the levels being confirmed and
    /// the agreement counts of the rows of one column.
    pub fn new(stable_state: ColumnState, staging_state: ColumnState, tick_counts: [u8; N_ROWS]) -> (
        u: ColumnUpdate)
        ensures
            u@.len() == N_ROWS,
            forall|r: int|
                0 <= r < N_ROWS ==> #[trigger] u@[r] == (KeyState {
                    stable: stable_state@[r],
                    staging: staging_state@[r],
                    ticks: tick_counts@[r],
                }),
    {
        ColumnUpdate { stable_state, staging_state, tick_counts }
    }

    /// Every key of the column released, nothing being confirmed.
    pub fn released() -> (u: ColumnUpdate)
        ensures
            u@ == Seq::new(N_ROWS as nat, |r: int| KeyState::released()),
    {
        let u = ColumnUpdate {
            stable_state: ColumnState::zero(),
            staging_state: ColumnState::zero(),
            tick_counts: [0u8, 0u8, 0u8, 0u8],
        };
        assert(u@ =~= Seq::new(N_ROWS as nat, |r: int| KeyState::released()));
        u
    }

    /// Feeds one raw sample of the column to the filter of each of its keys and
    /// returns the rows whose level was confirmed to change.
    pub fn apply(&mut self, new_state: ColumnState) -> (result: ColumnUpdateResult)
        ensures
            final(self)@.len() == N_ROWS,
            forall|r: int|
                0 <= r < N_ROWS ==> #[trigger] final(self)@[r] == old(self)@[r].step(new_state@[r]),
            forall|r: int|
                0 <= r < N_ROWS ==> #[trigger] result.pressed_keys@[r] == (old(self)@[r].reports(
                    new_state@[r],
                ) && new_state@[r]),
            forall|r: int|
                0 <= r < N_ROWS ==> #[trigger] result.released_keys@[r] == (old(self)@[r].reports(
                    new_state@[r],
                ) && !new_state@[r]),
    {
        let mut result = ColumnUpdateResult {
            pressed_keys: ColumnState::zero(),
            released_keys: ColumnState::zero(),
        };
        let mut r: usize = 0;
        while r < N_ROWS
            invariant
                r <= N_ROWS,
                self@.len() == N_ROWS,
                forall|s: int| 0 <= s < r ==> #[trigger] self@[s] == old(self)@[s].step(new_state@[s]),
                forall|s: int| r <= s < N_ROWS ==> #[trigger] self@[s] == old(self)@[s],
                forall|s: int|
                    0 <= s < r ==> #[trigger] result.pressed_keys@[s] == (old(self)@[s].reports(
                        new_state@[s],
                    ) && new_state@[s]),
                forall|s: int|
                    0 <= s < r ==> #[trigger] result.released_keys@[s] == (old(self)@[s].reports(
                        new_state@[s],
                    ) && !new_state@[s]),
                forall|s: int| r <= s < N_ROWS ==> !#[trigger] result.pressed_keys@[s],
                forall|s: int| r <= s < N_ROWS ==> !#[trigger] result.released_keys@[s],
            decreases N_ROWS - r,
        {
            let ghost before = *self;
            let new = new_state.get(r);
            if new != self.staging_state.get(r) {
                self.tick_counts[r] = 0;
                self.staging_state.set(r, new);
            } else if self.tick_counts[r] < DEBOUNCE_TICKS {
                self.tick_counts[r] = self.tick_counts[r] + 1;
            } else if new != self.stable_state.get(r) {
                self.stable_state.set(r, new);
                if new {
                    result.pressed_keys.set(r, true);
                } else {
                    result.released_keys.set(r, true);
                }
            }
            assert(self@[r as int] == before@[r as int].step(new));
            assert forall|s: int| 0 <= s < N_ROWS && s != r implies #[trigger] self@[s] == before@[s] by {
            }
            r = r + 1;
        }
        result
    }
}

impl ColumnUpdateResult {
    /// Whether any row changed level.
    pub fn any(&self) -> (b: bool)
        ensures
            b == exists|r: int|
                0 <= r < N_ROWS && (self.pressed_keys@[r] || self.released_keys@[r]),
    {
        let p = self.pressed_keys.any();
        let q = self.released_keys.any();
        proof {
            if p {
                let r = choose|r: int| 0 <= r < N_ROWS && self.pressed_keys@[r];
                assert(self.pressed_keys@[r] || self.released_keys@[r]);
            }
            if q {
                let r = choose|r: int| 0 <= r < N_ROWS && self.released_keys@[r];
                assert(self.pressed_keys@[r] || self.released_keys@[r]);
            }
        }
        p || q
    }
}


/// The event that reports `k` reaching level `down`.
pub open spec fn key_event(down: bool, k: Key) -> KeyEvent {
    if down {
        KeyEvent::KeyDown(k)
    } else {
        KeyEvent::KeyUp(k)
    }
}

/// The events for the rows set in `rows[0..n]` of column `col`, rows ascending.
pub open spec fn row_events(col: u8, rows: Seq<bool>, down: bool, n: int) -> Seq<KeyEvent>
    decreases n,
{
    if n <= 0 {
        seq![]
    } else {
        row_events(col, rows, down, n - 1) + if rows[n - 1] {
            seq![key_event(down, Key { col, row: (n - 1) as u8 })]
        } else {
            seq![]
        }
    }
}

/// The events published for one column's update: releases first, then
/// presses, each by ascending row.
pub open spec fn column_events(col: u8, released: Seq<bool>, pressed: Seq<bool>) -> Seq<KeyEvent> {
    row_events(col, released, false, N_ROWS as int) + row_events(col, pressed, true, N_ROWS as int)
}

/// The line levels that select column `active`: it alone is driven low
/// (`false`), every other column stays high (`true`).
pub fn scan_levels(active: usize) -> (levels: Vec<bool>)
    requires
        active < N_COLS,
    ensures
        levels@.len() == N_COLS,
        forall|c: int| 0 <= c < N_COLS ==> #[trigger] levels@[c] == (c != active),
{
    let mut levels: Vec<bool> = Vec::new();
    let mut c: usize = 0;
    while c < N_COLS
        invariant
            c <= N_COLS,
            levels@.len() == c,
            forall|d: int| 0 <= d < c ==> #[trigger] levels@[d] == (d != active),
        decreases N_COLS - c,
    {
        levels.push(c != active);
        c = c + 1;
    }
    levels
}

fn push_row_events(events: &mut Vec<KeyEvent>, col: u8, rows: ColumnState, down: bool)
    ensures
        final(events)@ == old(events)@ + row_events(col, rows@, down, N_ROWS as int),
{
    let mut r: usize = 0;
    while r < N_ROWS
        invariant
            r <= N_ROWS,
            events@ == old(events)@ + row_events(col, rows@, down, r as int),
        decreases N_ROWS - r,
    {
        if rows.get(r) {
            let k = Key { col, row: r as u8 };
            if down {
                events.push(KeyEvent::KeyDown(k));
            } else {
                events.push(KeyEvent::KeyUp(k));
            }
        }
        proof {
            assert(events@ =~= old(events)@ + row_events(col, rows@, down, r + 1));
        }
        r = r + 1;
    }
}

/// The debounce state of the whole keypad, one `ColumnUpdate` per column.
pub struct Debouncer {
    columns: [ColumnUpdate; N_COLS],
}

impl View for Debouncer {
    type V = Seq<Seq<KeyState>>;

    closed spec fn view(&self) -> Seq<Seq<KeyState>> {
        Seq::new(N_COLS as nat, |c: int| self.columns@[c]@)
    }
}

impl Debouncer {
    /// Every key released, as at boot.
    pub fn new() -> (d: Debouncer)
        ensures
            d@ == Seq::new(N_COLS as nat, |c: int| Seq::new(N_ROWS as nat, |r: int| KeyState::released())),
    {
        let d = Debouncer {
            columns: [ColumnUpdate::released(), ColumnUpdate::released(), ColumnUpdate::released()],
        };
        assert(d@ =~= Seq::new(N_COLS as nat, |c: int| Seq::new(N_ROWS as nat, |r: int| KeyState::released())));
        d
    }

    /// The filter state of key `(col, row)`.
    pub fn key_state(&self, col: usize, row: usize) -> (k: KeyState)
        requires
            col < N_COLS,
            row < N_ROWS,
        ensures
            k == self@[col as int][row as int],
    {
        let u = self.columns[col];
        KeyState {
            stable: u.stable_state.get(row),
            staging: u.staging_state.get(row),
            ticks: u.tick_counts[row],
        }
    }

    /// Feeds the raw sample of column `col` to the filter and returns the events
    /// to publish, in publish order: confirmed releases, then confirmed presses,
    /// each by ascending row. The other columns are left as they were.
    pub fn process_column(&mut self, col: usize, mask: ColumnState) -> (events: Vec<KeyEvent>)
        requires
            col < N_COLS,
        ensures
            final(self)@ == old(self)@.update(
                col as int,
                Seq::new(N_ROWS as nat, |r: int| old(self)@[col as int][r].step(mask@[r])),
            ),
            events@ == column_events(
                col as u8,
                Seq::new(
                    N_ROWS as nat,
                    |r: int| old(self)@[col as int][r].reports(mask@[r]) && !mask@[r],
                ),
                Seq::new(
                    N_ROWS as nat,
                    |r: int| old(self)@[col as int][r].reports(mask@[r]) && mask@[r],
                ),
            ),
    {
        let mut u = self.columns[col];
        let updates = u.apply(mask);
        self.columns[col] = u;
        let mut events: Vec<KeyEvent> = Vec::new();
        let changed = updates.any();
        if changed {
            push_row_events(&mut events, col as u8, updates.released_keys, false);
            push_row_events(&mut events, col as u8, updates.pressed_keys, true);
        }
        proof {
            let released = Seq::new(
                N_ROWS as nat,
                |r: int| old(self)@[col as int][r].reports(mask@[r]) && !mask@[r],
            );
            let pressed = Seq::new(
                N_ROWS as nat,
                |r: int| old(self)@[col as int][r].reports(mask@[r]) && mask@[r],
            );
            assert(updates.released_keys@ =~= released);
            assert(updates.pressed_keys@ =~= pressed);
            if !changed {
                lemma_row_events_none(col as u8, released, false, N_ROWS as int);
                lemma_row_events_none(col as u8, pressed, true, N_ROWS as int);
            }
            assert(events@ =~= column_events(col as u8, released, pressed));
            let stepped = Seq::new(N_ROWS as nat, |r: int| old(self)@[col as int][r].step(mask@[r]));
            assert(u@ =~= stepped);
            assert(self.columns@[col as int] == u);
            assert forall|c: int| 0 <= c < N_COLS implies #[trigger] self@[c] == old(self)@.update(
                col as int,
                stepped,
            )[c] by {
                if c != col {
                    assert(self.columns@[c] == old(self).columns@[c]);
                }
            }
            assert(self@ =~= old(self)@.update(
                col as int,
                Seq::new(N_ROWS as nat, |r: int| old(self)@[col as int][r].step(mask@[r])),
            ));
        }
        events
    }
}

proof fn lemma_row_events_none(col: u8, rows: Seq<bool>, down: bool, n: int)
    requires
        forall|r: int| 0 <= r < n ==> !#[trigger] rows[r],
    ensures
        row_events(col, rows, down, n) == Seq::<KeyEvent>::empty(),
    decreases n,
{
    if n > 0 {
        lemma_row_events_none(col, rows, down, n - 1);
        assert(row_events(col, rows, down, n) =~= Seq::<KeyEvent>::empty());
    }
}

} // verus!
