//! The reference anchors the simulation and the evidence work against, and
//! the simulation's capital settings: local capital converted to USDT, and
//! the per-symbol position modes.
use crate::decimal::{parse_scaled_decimal, scaled_decimal_spec, ScaledDecimalError};
use crate::keyed::SortedMap;
use crate::text::{has_prefix, lower_chars, parse_u64_spec, trim_chars, upper_chars, utf8};
use vstd::prelude::*;
use vstd::string::*;

verus! {

/// The anchor of one symbol: the reference close, in price ticks, and when
/// it was observed.
#[derive(Debug, Clone, Copy, PartialEq, Eq, Structural)]
pub struct AnchorSnapshot {
    pub observed_at_ms: u64,
    pub close_price_ticks: i64,
}


#[derive(Debug, Clone, Copy, PartialEq, Eq, Structural)]
pub enum CapitalConversionError {
    /// The capital or the FX rate is not positive.
    NonPositive,
    /// The USDT amount does not fit an `i64`.
    Overflow,
}

impl CapitalConversionError {
    pub fn message(&self) -> (r: &'static str)
        ensures
            *self == CapitalConversionError::NonPositive ==> r@ == "capital and FX rate must be positive"@,
            *self == CapitalConversionError::Overflow ==> r@ == "converted USDT capital overflows"@,
    {
        match self {
            CapitalConversionError::NonPositive => "capital and FX rate must be positive",
            CapitalConversionError::Overflow => "converted USDT capital overflows",
        }
    }
}

/// Local capital in ticks at a rate of `local_per_usdt_ppm` local units
/// per million USDT units, rounded down.
pub open spec fn usdt_capital_spec(local_capital_ticks: i64, local_per_usdt_ppm: i64) -> Result<
    i64,
    CapitalConversionError,
> {
    if local_capital_ticks <= 0 || local_per_usdt_ppm <= 0 {
        Err(CapitalConversionError::NonPositive)
    } else {
        let v = local_capital_ticks * 1_000_000 / (local_per_usdt_ppm as int);
        if v <= i64::MAX {
            Ok(v as i64)
        } else {
            Err(CapitalConversionError::Overflow)
        }
    }
}

pub fn local_capital_to_usdt_ticks(local_capital_ticks: i64, local_per_usdt_ppm: i64) -> (r: Result<
    i64,
    CapitalConversionError,
>)
    ensures
        r == usdt_capital_spec(local_capital_ticks, local_per_usdt_ppm),
{
    if local_capital_ticks <= 0 || local_per_usdt_ppm <= 0 {
        return Err(CapitalConversionError::NonPositive);
    }
    let v: u128 = (local_capital_ticks as u128) * 1_000_000 / (local_per_usdt_ppm as u128);
    if v > 0x7FFF_FFFF_FFFF_FFFF {
        Err(CapitalConversionError::Overflow)
    } else {
        Ok(v as i64)
    }
}

/// How a symbol's position budget is set.
#[derive(Debug, Clone, Copy, PartialEq, Eq, Structural)]
pub enum PositionMode {
    Equal,
    Weight(u64),
    FixedUsdt(i64),
}

/// Why a position-mode list was refused.
#[derive(Debug, Clone, PartialEq, Eq)]
pub enum PositionModeError {
    /// An item is not `SYMBOL=MODE`.
    MissingEquals,
    UnknownSymbol(String),
    DuplicateSymbol(String),
    /// A `weight:` that is not an unsigned integer.
    InvalidWeight,
    UnsupportedMode(String),
    /// A `fixed:` budget that is not a decimal at the price scale.
    Budget(ScaledDecimalError),
}

pub enum ModeErrorView {
    MissingEquals,
    UnknownSymbol(Seq<char>),
    DuplicateSymbol(Seq<char>),
    InvalidWeight,
    UnsupportedMode(Seq<char>),
    Budget(ScaledDecimalError),
}

pub open spec fn mode_error_view(e: PositionModeError) -> ModeErrorView {
    match e {
        PositionModeError::MissingEquals => ModeErrorView::MissingEquals,
        PositionModeError::UnknownSymbol(s) => ModeErrorView::UnknownSymbol(s@),
        PositionModeError::DuplicateSymbol(s) => ModeErrorView::DuplicateSymbol(s@),
        PositionModeError::InvalidWeight => ModeErrorView::InvalidWeight,
        PositionModeError::UnsupportedMode(s) => ModeErrorView::UnsupportedMode(s@),
        PositionModeError::Budget(e) => ModeErrorView::Budget(e),
    }
}

/// The pieces `str::split(',')` yields from position `i`, the current one
/// having begun at `start`.
pub open spec fn comma_pieces_scan(s: Seq<char>, start: int, i: int) -> Seq<Seq<char>>
    decreases s.len() - i,
{
    if i >= s.len() {
        seq![s.subrange(start, s.len() as int)]
    } else if s[i] == ',' {
        seq![s.subrange(start, i)] + comma_pieces_scan(s, i + 1, i + 1)
    } else {
        comma_pieces_scan(s, start, i + 1)
    }
}

pub open spec fn comma_pieces(s: Seq<char>) -> Seq<Seq<char>> {
    comma_pieces_scan(s, 0, 0)
}

/// The first `=` at or after `i`.
pub open spec fn first_equals(s: Seq<char>, i: int) -> Option<int>
    decreases s.len() - i,
{
    if i < 0 || i >= s.len() {
        None
    } else if s[i] == '=' {
        Some(i)
    } else {
        first_equals(s, i + 1)
    }
}

/// `equal`, `weight:N` or `fixed:USDT` (already trimmed and lower-cased).
pub open spec fn mode_spec(mode: Seq<char>, price_scale: nat) -> Result<PositionMode, ModeErrorView> {
    if mode == "equal"@ {
        Ok(PositionMode::Equal)
    } else if has_prefix(mode, "weight:"@) {
        match parse_u64_spec(mode.subrange(7, mode.len() as int)) {
            Some(w) => Ok(PositionMode::Weight(w as u64)),
            None => Err(ModeErrorView::InvalidWeight),
        }
    } else if has_prefix(mode, "fixed:"@) {
        match scaled_decimal_spec(mode.subrange(6, mode.len() as int), price_scale) {
            Ok(v) => Ok(PositionMode::FixedUsdt(v)),
            Err(e) => Err(ModeErrorView::Budget(e)),
        }
    } else {
        Err(ModeErrorView::UnsupportedMode(mode))
    }
}

/// One item of the list: blank items are skipped; otherwise the symbol
/// (trimmed, upper-cased) must be a known one not yet given, and its mode
/// (trimmed, lower-cased) must parse.
pub open spec fn mode_item_step(
    m: Map<Seq<u8>, PositionMode>,
    piece: Seq<char>,
    symbols: Seq<Seq<char>>,
    price_scale: nat,
) -> Result<Map<Seq<u8>, PositionMode>, ModeErrorView> {
    let item = trim_chars(piece);
    if item.len() == 0 {
        Ok(m)
    } else {
        match first_equals(item, 0) {
            None => Err(ModeErrorView::MissingEquals),
            Some(k) => {
                let symbol = upper_chars(trim_chars(item.subrange(0, k)));
                let mode = lower_chars(trim_chars(item.subrange(k + 1, item.len() as int)));
                if !symbols.contains(symbol) {
                    Err(ModeErrorView::UnknownSymbol(symbol))
                } else if m.dom().contains(utf8(symbol)) {
                    Err(ModeErrorView::DuplicateSymbol(symbol))
                } else {
                    match mode_spec(mode, price_scale) {
                        Ok(pm) => Ok(m.insert(utf8(symbol), pm)),
                        Err(e) => Err(e),
                    }
                }
            },
        }
    }
}

/// The items in order, stopping at the first refusal.
pub open spec fn modes_fold(pieces: Seq<Seq<char>>, symbols: Seq<Seq<char>>, price_scale: nat) -> Result<
    Map<Seq<u8>, PositionMode>,
    ModeErrorView,
>
    decreases pieces.len(),
{
    if pieces.len() == 0 {
        Ok(Map::empty())
    } else {
        match modes_fold(pieces.drop_last(), symbols, price_scale) {
            Err(e) => Err(e),
            Ok(m) => mode_item_step(m, pieces.last(), symbols, price_scale),
        }
    }
}

fn parse_mode(mode: &str, price_scale: u32) -> (r: Result<PositionMode, PositionModeError>)
    ensures
        match r {
            Ok(pm) => mode_spec(mode@, price_scale as nat) == Ok::<PositionMode, ModeErrorView>(pm),
            Err(e) => mode_spec(mode@, price_scale as nat) == Err::<PositionMode, ModeErrorView>(
                mode_error_view(e),
            ),
        },
{
    if crate::text::str_eq(mode, "equal") {
        return Ok(PositionMode::Equal);
    }
    let n = mode.unicode_len();
    if crate::text::starts_with(mode, "weight:") {
        proof { reveal_strlit("weight:"); }
        return match crate::text::parse_u64_text(mode.substring_char(7, n)) {
            Some(w) => Ok(PositionMode::Weight(w)),
            None => Err(PositionModeError::InvalidWeight),
        };
    }
    if crate::text::starts_with(mode, "fixed:") {
        proof { reveal_strlit("fixed:"); }
        return match parse_scaled_decimal(mode.substring_char(6, n), price_scale) {
            Ok(v) => Ok(PositionMode::FixedUsdt(v)),
            Err(e) => Err(PositionModeError::Budget(e)),
        };
    }
    Err(PositionModeError::UnsupportedMode(crate::text::owned(mode)))
}

pub open spec fn symbol_views(symbols: Seq<String>) -> Seq<Seq<char>> {
    symbols.map_values(|s: String| s@)
}

fn known_symbol(symbols: &[String], symbol: &str) -> (r: bool)
    ensures
        r == symbol_views(symbols@).contains(symbol@),
{
    let mut i: usize = 0;
    while i < symbols.len()
        invariant
            i <= symbols@.len(),
            forall|j: int| 0 <= j < i ==> symbols@[j]@ != symbol@,
        decreases symbols@.len() - i,
    {
        if crate::text::str_eq(symbols[i].as_str(), symbol) {
            assert(symbol_views(symbols@)[i as int] == symbol@);
            return true;
        }
        i = i + 1;
    }
    assert forall|j: int| 0 <= j < symbol_views(symbols@).len() implies symbol_views(symbols@)[j]
        != symbol@ by {
        assert(symbol_views(symbols@)[j] == symbols@[j]@);
    }
    false
}

#[verifier::spinoff_prover]
#[verifier::rlimit(40)]
fn mode_item(
    modes: &mut SortedMap<PositionMode>,
    piece: &str,
    symbols: &[String],
    price_scale: u32,
) -> (r: Result<(), PositionModeError>)
    requires
        old(modes).wf(),
    ensures
        final(modes).wf(),
        match r {
            Ok(()) => mode_item_step(old(modes).as_map(), piece@, symbol_views(symbols@), price_scale as nat)
                == Ok::<Map<Seq<u8>, PositionMode>, ModeErrorView>(final(modes).as_map()),
            Err(e) => mode_item_step(old(modes).as_map(), piece@, symbol_views(symbols@), price_scale as nat)
                == Err::<Map<Seq<u8>, PositionMode>, ModeErrorView>(mode_error_view(e)),
        },
{
    let item = crate::text::trim(piece);
    let n = item.unicode_len();
    if n == 0 {
        return Ok(());
    }
    let cs = crate::text::chars_of(item);
    let mut k: usize = 0;
    while k < n && cs[k] != '='
        invariant
            n == cs@.len(),
            cs@ == item@,
            k <= n,
            first_equals(item@, 0) == first_equals(item@, k as int),
        decreases n - k,
    {
        k = k + 1;
    }
    if k == n {
        return Err(PositionModeError::MissingEquals);
    }
    let symbol = crate::text::to_upper(crate::text::trim(item.substring_char(0, k)));
    let mode = crate::text::to_lower(crate::text::trim(item.substring_char(k + 1, n)));
    if !known_symbol(symbols, symbol.as_str()) {
        return Err(PositionModeError::UnknownSymbol(symbol));
    }
    if modes.get(symbol.as_str()).is_some() {
        return Err(PositionModeError::DuplicateSymbol(symbol));
    }
    let parsed = match parse_mode(mode.as_str(), price_scale) {
        Ok(pm) => pm,
        Err(e) => {
            return Err(e);
        },
    };
    modes.insert(symbol, parsed);
    Ok(())
}

/// Parses `SYMBOL=equal|weight:N|fixed:USDT` items separated by commas
/// into a map of the named symbols' position modes.
#[verifier::spinoff_prover]
#[verifier::rlimit(40)]
pub fn parse_position_modes(spec: &str, symbols: &[String], price_scale: u32) -> (r: Result<
    SortedMap<PositionMode>,
    PositionModeError,
>)
    ensures
        match r {
            Ok(m) => m.wf() && modes_fold(comma_pieces(spec@), symbol_views(symbols@), price_scale as nat)
                == Ok::<Map<Seq<u8>, PositionMode>, ModeErrorView>(m.as_map()),
            Err(e) => modes_fold(comma_pieces(spec@), symbol_views(symbols@), price_scale as nat)
                == Err::<Map<Seq<u8>, PositionMode>, ModeErrorView>(mode_error_view(e)),
        },
{
    let ghost s = spec@;
    let ghost sv = symbol_views(symbols@);
    let cs = crate::text::chars_of(spec);
    let n = cs.len();
    let mut modes: SortedMap<PositionMode> = SortedMap::new();
    let ghost mut done: Seq<Seq<char>> = Seq::empty();
    let mut start: usize = 0;
    let mut i: usize = 0;
    while i < n
        invariant
            cs@ == s,
            s == spec@,
            sv == symbol_views(symbols@),
            n == s.len(),
            start <= i <= n,
            modes.wf(),
            comma_pieces(s) == done + comma_pieces_scan(s, start as int, i as int),
            modes_fold(done, sv, price_scale as nat) == Ok::<Map<Seq<u8>, PositionMode>, ModeErrorView>(
                modes.as_map(),
            ),
        decreases n - i,
    {
        if cs[i] == ',' {
            let piece = spec.substring_char(start, i);
            let ghost before = modes.as_map();
            let ghost next = done.push(piece@);
            assert(next.drop_last() =~= done);
            assert(done + comma_pieces_scan(s, start as int, i as int) =~= next + comma_pieces_scan(
                s,
                i + 1,
                i + 1,
            ));
            match mode_item(&mut modes, piece, symbols, price_scale) {
                Ok(()) => {},
                Err(e) => {
                    proof {
                        lemma_modes_fold_stops(s, sv, price_scale as nat, next, i + 1, i + 1);
                    }
                    return Err(e);
                },
            }
            proof {
                done = next;
            }
            start = i + 1;
        }
        i = i + 1;
    }
    let piece = spec.substring_char(start, n);
    let ghost next = done.push(piece@);
    assert(next.drop_last() =~= done);
    assert(comma_pieces(s) =~= next);
    match mode_item(&mut modes, piece, symbols, price_scale) {
        Ok(()) => Ok(modes),
        Err(e) => Err(e),
    }
}

/// After a refusal, the later pieces change nothing.
proof fn lemma_modes_fold_stops(
    s: Seq<char>,
    symbols: Seq<Seq<char>>,
    price_scale: nat,
    done: Seq<Seq<char>>,
    start: int,
    i: int,
)
    requires
        0 <= start <= i <= s.len(),
        modes_fold(done, symbols, price_scale) is Err,
    ensures
        modes_fold(done + comma_pieces_scan(s, start, i), symbols, price_scale) == modes_fold(
            done,
            symbols,
            price_scale,
        ),
    decreases s.len() - i,
{
    if i >= s.len() {
        let all = done + comma_pieces_scan(s, start, i);
        assert(all.drop_last() =~= done);
    } else if s[i] == ',' {
        let next = done.push(s.subrange(start, i));
        assert(next.drop_last() =~= done);
        lemma_modes_fold_stops(s, symbols, price_scale, next, i + 1, i + 1);
        assert(done + comma_pieces_scan(s, start, i) =~= next + comma_pieces_scan(s, i + 1, i + 1));
    } else {
        lemma_modes_fold_stops(s, symbols, price_scale, done, start, i + 1);
    }
}

} // verus!
