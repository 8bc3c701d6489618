//! The arguments of the ARFIMA service, read in order; the first that is
//! refused is reported.
//!
//! The two real-valued arguments arrive already read, as their value or the
//! text of their error, and are carried as a type parameter.
use vstd::prelude::*;
use crate::parse::{
    bool_error_message, bool_error_text, int_error_message, int_error_text, parse_bool,
    parse_bool_spec, parse_u64, parse_u64_spec, parse_usize, parse_usize_spec,
};
use crate::text::concat;

verus! {

broadcast use vstd::string::group_string_axioms;

/// The arguments of the ARFIMA service.
pub struct ArfimaArgs<F> {
    /// The seasonal period of the anomaly test.
    pub freq: usize,
    /// The level of the anomaly test.
    pub alpha: F,
    /// The largest share of anomalies.
    pub ub: F,
    /// Whether the anomaly test uses the median and the MAD.
    pub hybrid: bool,
    /// The iterations of the Box-Cox fit.
    pub max_iters: u64,
    /// The lags of the autocorrelations.
    pub nlags: usize,
    /// The iterations of each ARMA fit.
    pub max_iters_grid: u64,
}

/// The message of an argument that is refused.
pub open spec fn arg_error_text(name: Seq<char>, error: Seq<char>) -> Seq<char> {
    "[Error] Failed to parse "@ + name + ": \n "@ + error
}

/// The message of an argument that is refused.
pub fn arg_error_message(name: &str, error: &str) -> (res: String)
    ensures
        res@ == arg_error_text(name@, error@),
{
    let mut res = concat("[Error] Failed to parse ", name);
    res.append(": \n ");
    res.append(error);
    res
}

/// The arguments, or the message of the first one refused, in the order
/// frequency, alpha, ub, hybrid, max_iters, nlags, max_iters_grid.
pub open spec fn arfima_args_spec<F>(
    freq: Seq<char>,
    alpha: Result<F, Seq<char>>,
    ub: Result<F, Seq<char>>,
    hybrid: Seq<char>,
    max_iters: Seq<char>,
    nlags: Seq<char>,
    max_iters_grid: Seq<char>,
) -> Result<(int, F, F, bool, int, int, int), Seq<char>> {
    match parse_usize_spec(freq) {
        Err(k) => Err(arg_error_text("frequency"@, int_error_text(k))),
        Ok(f) => match alpha {
            Err(m) => Err(arg_error_text("alpha"@, m)),
            Ok(a) => match ub {
                Err(m) => Err(arg_error_text("ub"@, m)),
                Ok(u) => match parse_bool_spec(hybrid) {
                    None => Err(arg_error_text("hybrid"@, bool_error_text())),
                    Some(h) => match parse_u64_spec(max_iters) {
                        Err(k) => Err(arg_error_text("max_iters"@, int_error_text(k))),
                        Ok(mi) => match parse_usize_spec(nlags) {
                            Err(k) => Err(arg_error_text("nlags"@, int_error_text(k))),
                            Ok(nl) => match parse_u64_spec(max_iters_grid) {
                                Err(k) => Err(arg_error_text("max_iters_grid"@, int_error_text(k))),
                                Ok(g) => Ok((f, a, u, h, mi, nl, g)),
                            },
                        },
                    },
                },
            },
        },
    }
}

/// Every argument is accepted on its own.
pub open spec fn arfima_args_accepted<F>(
    freq: Seq<char>,
    alpha: Result<F, Seq<char>>,
    ub: Result<F, Seq<char>>,
    hybrid: Seq<char>,
    max_iters: Seq<char>,
    nlags: Seq<char>,
    max_iters_grid: Seq<char>,
) -> bool {
    &&& parse_usize_spec(freq) is Ok
    &&& alpha is Ok
    &&& ub is Ok
    &&& parse_bool_spec(hybrid) is Some
    &&& parse_u64_spec(max_iters) is Ok
    &&& parse_usize_spec(nlags) is Ok
    &&& parse_u64_spec(max_iters_grid) is Ok
}

/// The arguments are accepted exactly when each one is, and then every
/// field is what its own argument reads as: the counts are the numbers their
/// texts spell, the flag is `true` for `"true"` and `false` for `"false"`,
/// and the real values are passed through unchanged.
pub proof fn lemma_arfima_args_fields<F>(
    freq: Seq<char>,
    alpha: Result<F, Seq<char>>,
    ub: Result<F, Seq<char>>,
    hybrid: Seq<char>,
    max_iters: Seq<char>,
    nlags: Seq<char>,
    max_iters_grid: Seq<char>,
)
    ensures
        arfima_args_spec(freq, alpha, ub, hybrid, max_iters, nlags, max_iters_grid) is Ok
            <==> arfima_args_accepted(freq, alpha, ub, hybrid, max_iters, nlags, max_iters_grid),
        arfima_args_spec(freq, alpha, ub, hybrid, max_iters, nlags, max_iters_grid) matches Ok(
            (f, a, u, h, mi, nl, g),
        ) ==> {
            &&& f == parse_usize_spec(freq)->Ok_0
            &&& a == alpha->Ok_0
            &&& u == ub->Ok_0
            &&& h == parse_bool_spec(hybrid)->Some_0
            &&& (hybrid == "true"@ ==> h)
            &&& (hybrid == "false"@ ==> !h)
            &&& mi == parse_u64_spec(max_iters)->Ok_0
            &&& nl == parse_usize_spec(nlags)->Ok_0
            &&& g == parse_u64_spec(max_iters_grid)->Ok_0
        },
{
    reveal_strlit("true");
    reveal_strlit("false");
    assert("true"@ != "false"@) by {
        assert("true"@.len() != "false"@.len());
    }
}

pub open spec fn text_result<F>(r: Result<F, String>) -> Result<F, Seq<char>> {
    match r {
        Ok(v) => Ok(v),
        Err(m) => Err(m@),
    }
}

/// Reads the arguments of the ARFIMA service.
pub fn arfima_args<F>(
    freq: &str,
    alpha: Result<F, String>,
    ub: Result<F, String>,
    hybrid: &str,
    max_iters: &str,
    nlags: &str,
    max_iters_grid: &str,
) -> (res: Result<ArfimaArgs<F>, String>)
    ensures
        match arfima_args_spec(
            freq@,
            text_result(alpha),
            text_result(ub),
            hybrid@,
            max_iters@,
            nlags@,
            max_iters_grid@,
        ) {
            Ok((f, a, u, h, mi, nl, g)) => res is Ok && res->Ok_0.freq == f && res->Ok_0.alpha == a
                && res->Ok_0.ub == u && res->Ok_0.hybrid == h && res->Ok_0.max_iters == mi
                && res->Ok_0.nlags == nl && res->Ok_0.max_iters_grid == g,
            Err(m) => res is Err && res->Err_0@ == m,
        },
        res is Ok <==> arfima_args_accepted(
            freq@,
            text_result(alpha),
            text_result(ub),
            hybrid@,
            max_iters@,
            nlags@,
            max_iters_grid@,
        ),
        res is Ok ==> {
            &&& res->Ok_0.freq == parse_usize_spec(freq@)->Ok_0
            &&& res->Ok_0.alpha == alpha->Ok_0
            &&& res->Ok_0.ub == ub->Ok_0
            &&& res->Ok_0.hybrid == parse_bool_spec(hybrid@)->Some_0
            &&& res->Ok_0.max_iters == parse_u64_spec(max_iters@)->Ok_0
            &&& res->Ok_0.nlags == parse_usize_spec(nlags@)->Ok_0
            &&& res->Ok_0.max_iters_grid == parse_u64_spec(max_iters_grid@)->Ok_0
        },
{
    let freq = match parse_usize(freq) {
        Ok(v) => v,
        Err(k) => {
            let e = int_error_message(k);
            return Err(arg_error_message("frequency", e.as_str()));
        },
    };
    let alpha = match alpha {
        Ok(v) => v,
        Err(m) => return Err(arg_error_message("alpha", m.as_str())),
    };
    let ub = match ub {
        Ok(v) => v,
        Err(m) => return Err(arg_error_message("ub", m.as_str())),
    };
    let hybrid = match parse_bool(hybrid) {
        Some(v) => v,
        None => {
            let e = bool_error_message();
            return Err(arg_error_message("hybrid", e.as_str()));
        },
    };
    let max_iters = match parse_u64(max_iters) {
        Ok(v) => v,
        Err(k) => {
            let e = int_error_message(k);
            return Err(arg_error_message("max_iters", e.as_str()));
        },
    };
    let nlags = match parse_usize(nlags) {
        Ok(v) => v,
        Err(k) => {
            let e = int_error_message(k);
            return Err(arg_error_message("nlags", e.as_str()));
        },
    };
    let max_iters_grid = match parse_u64(max_iters_grid) {
        Ok(v) => v,
        Err(k) => {
            let e = int_error_message(k);
            return Err(arg_error_message("max_iters_grid", e.as_str()));
        },
    };
    Ok(ArfimaArgs { freq, alpha, ub, hybrid, max_iters, nlags, max_iters_grid })
}

} // verus!
