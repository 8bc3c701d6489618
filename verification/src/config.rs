//! The settings of the forecasting service and the changes that can be made
//! to them one setting at a time.
//!
//! The real-valued settings (`alpha`, `ub`, `herst`) are carried as a type
//! parameter: the library passes them along and never computes with them.
use vstd::prelude::*;
use crate::text::owned;

verus! {

broadcast use vstd::string::group_string_axioms;

/// The settings of the service.
pub struct Config<F> {
    pub symbol: String,
    pub interval: String,
    pub date: String,
    pub min_window: usize,
    pub m_iter: usize,
    pub freq: usize,
    pub alpha: F,
    pub ub: F,
    pub hybrid: bool,
    pub max_iters: u64,
    pub herst: F,
}

/// The settings, with each text taken by its characters.
pub struct ConfigModel<F> {
    pub symbol: Seq<char>,
    pub interval: Seq<char>,
    pub date: Seq<char>,
    pub min_window: usize,
    pub m_iter: usize,
    pub freq: usize,
    pub alpha: F,
    pub ub: F,
    pub hybrid: bool,
    pub max_iters: u64,
    pub herst: F,
}

impl<F> View for Config<F> {
    type V = ConfigModel<F>;

    open spec fn view(&self) -> ConfigModel<F> {
        ConfigModel {
            symbol: self.symbol@,
            interval: self.interval@,
            date: self.date@,
            min_window: self.min_window,
            m_iter: self.m_iter,
            freq: self.freq,
            alpha: self.alpha,
            ub: self.ub,
            hybrid: self.hybrid,
            max_iters: self.max_iters,
            herst: self.herst,
        }
    }
}

impl<F> ConfigModel<F> {
    pub open spec fn with_symbol(self, symbol: Seq<char>) -> ConfigModel<F> {
        ConfigModel { symbol, ..self }
    }

    pub open spec fn with_interval(self, interval: Seq<char>) -> ConfigModel<F> {
        ConfigModel { interval, ..self }
    }

    pub open spec fn with_date(self, date: Seq<char>) -> ConfigModel<F> {
        ConfigModel { date, ..self }
    }

    pub open spec fn with_herst(self, herst: F) -> ConfigModel<F> {
        ConfigModel { herst, ..self }
    }
}

/// The settings that the service starts from, given its real-valued
/// defaults.
pub open spec fn default_model<F>(alpha: F, ub: F, herst: F) -> ConfigModel<F> {
    ConfigModel {
        symbol: "BTCUSD"@,
        interval: "1h"@,
        date: "2025-01-01T00:00:00Z"@,
        min_window: 20,
        m_iter: 100,
        freq: 1,
        alpha,
        ub,
        hybrid: false,
        max_iters: 1_000_000,
        herst,
    }
}

impl<F> Config<F> {
    /// The default settings, with the real-valued defaults given by the
    /// caller (`0.05`, `1.0` and `0.5` in the service).
    pub fn with_defaults(alpha: F, ub: F, herst: F) -> (res: Config<F>)
        ensures
            res@ == default_model(alpha, ub, herst),
    {
        Config {
            symbol: owned("BTCUSD"),
            interval: owned("1h"),
            date: owned("2025-01-01T00:00:00Z"),
            min_window: 20,
            m_iter: 100,
            freq: 1,
            alpha,
            ub,
            hybrid: false,
            max_iters: 1_000_000,
            herst,
        }
    }
}

pub open spec fn config_path_text() -> Seq<char> {
    "./config.json"@
}

/// The changes that can be made to the stored settings.
pub struct ConfigManager;

impl ConfigManager {
    /// Where the settings are stored.
    pub fn config_path() -> (res: &'static str)
        ensures
            res@ == config_path_text(),
    {
        "./config.json"
    }

    /// The settings with the traded symbol replaced.
    pub fn update_symbol<F>(config: Config<F>, symbol: &str) -> (res: Config<F>)
        ensures
            res@ == config@.with_symbol(symbol@),
            res.symbol@ == symbol@,
            res.interval@ == config.interval@,
            res.date@ == config.date@,
            res.min_window == config.min_window,
            res.m_iter == config.m_iter,
            res.freq == config.freq,
            res.alpha == config.alpha,
            res.ub == config.ub,
            res.hybrid == config.hybrid,
            res.max_iters == config.max_iters,
            res.herst == config.herst,
    {
        let mut config = config;
        config.symbol = owned(symbol);
        config
    }

    /// The settings with the candle interval replaced.
    pub fn update_interval<F>(config: Config<F>, interval: &str) -> (res: Config<F>)
        ensures
            res@ == config@.with_interval(interval@),
            res.interval@ == interval@,
            res.symbol@ == config.symbol@,
            res.date@ == config.date@,
            res.min_window == config.min_window,
            res.m_iter == config.m_iter,
            res.freq == config.freq,
            res.alpha == config.alpha,
            res.ub == config.ub,
            res.hybrid == config.hybrid,
            res.max_iters == config.max_iters,
            res.herst == config.herst,
    {
        let mut config = config;
        config.interval = owned(interval);
        config
    }

    /// The settings with the start date replaced.
    pub fn update_date<F>(config: Config<F>, date: &str) -> (res: Config<F>)
        ensures
            res@ == config@.with_date(date@),
            res.date@ == date@,
            res.symbol@ == config.symbol@,
            res.interval@ == config.interval@,
            res.min_window == config.min_window,
            res.m_iter == config.m_iter,
            res.freq == config.freq,
            res.alpha == config.alpha,
            res.ub == config.ub,
            res.hybrid == config.hybrid,
            res.max_iters == config.max_iters,
            res.herst == config.herst,
    {
        let mut config = config;
        config.date = owned(date);
        config
    }

    /// The settings with the Hurst exponent replaced.
    pub fn update_herst<F>(config: Config<F>, herst: F) -> (res: Config<F>)
        ensures
            res@ == config@.with_herst(herst),
            res.herst == herst,
            res.symbol@ == config.symbol@,
            res.interval@ == config.interval@,
            res.date@ == config.date@,
            res.min_window == config.min_window,
            res.m_iter == config.m_iter,
            res.freq == config.freq,
            res.alpha == config.alpha,
            res.ub == config.ub,
            res.hybrid == config.hybrid,
            res.max_iters == config.max_iters,
    {
        let mut config = config;
        config.herst = herst;
        config
    }
}

/// Reading a setting back after it was replaced gives the new value, and
/// leaves every other setting as it was.
pub proof fn lemma_update_reads_back<F>(m: ConfigModel<F>, text: Seq<char>, herst: F)
    ensures
        m.with_symbol(text).symbol == text,
        m.with_interval(text).interval == text,
        m.with_date(text).date == text,
        m.with_herst(herst).herst == herst,
        m.with_symbol(text).with_symbol(m.symbol) == m,
        m.with_interval(text).with_interval(m.interval) == m,
        m.with_date(text).with_date(m.date) == m,
        m.with_herst(herst).with_herst(m.herst) == m,
{
}

/// Replacing one setting twice keeps only the second value.
pub proof fn lemma_update_last_wins<F>(m: ConfigModel<F>, a: Seq<char>, b: Seq<char>, h: F, k: F)
    ensures
        m.with_symbol(a).with_symbol(b) == m.with_symbol(b),
        m.with_interval(a).with_interval(b) == m.with_interval(b),
        m.with_date(a).with_date(b) == m.with_date(b),
        m.with_herst(h).with_herst(k) == m.with_herst(k),
{
}

/// Changes to different settings can be made in either order.
pub proof fn lemma_updates_commute<F>(
    m: ConfigModel<F>,
    symbol: Seq<char>,
    interval: Seq<char>,
    date: Seq<char>,
    herst: F,
)
    ensures
        m.with_symbol(symbol).with_interval(interval) == m.with_interval(interval).with_symbol(
            symbol,
        ),
        m.with_symbol(symbol).with_date(date) == m.with_date(date).with_symbol(symbol),
        m.with_symbol(symbol).with_herst(herst) == m.with_herst(herst).with_symbol(symbol),
        m.with_interval(interval).with_date(date) == m.with_date(date).with_interval(interval),
        m.with_interval(interval).with_herst(herst) == m.with_herst(herst).with_interval(
            interval,
        ),
        m.with_date(date).with_herst(herst) == m.with_herst(herst).with_date(date),
{
}

} // verus!
