//! The request of the R/S (rescaled range) service: its two counts and the
//! files it reads from and writes to.
use vstd::prelude::*;
use crate::parse::{int_error_message, int_error_text, parse_usize, parse_usize_spec};
use crate::paths::{incorrect_os_text, titled_data_path, titled_data_path_spec};
use crate::text::concat;

verus! {

broadcast use vstd::string::group_string_axioms;

/// What the R/S service was asked for.
pub struct RsRequest {
    /// The smallest window of the analysis.
    pub min_window: usize,
    /// The number of window sizes.
    pub n_iter: usize,
    /// The price series to read.
    pub series_path: String,
    /// Where the (window, R/S) pairs are written.
    pub output_path: String,
}

pub open spec fn price_series_file() -> Seq<char> {
    "price_series.json"@
}

pub open spec fn rs_series_file() -> Seq<char> {
    "rs_series.json"@
}

/// The request, or the message of the first argument that is refused: the
/// window, then the count, then the operating system.
pub open spec fn rs_request_spec(os: Seq<char>, min_window: Seq<char>, n_iter: Seq<char>) -> Result<
    (int, int, Seq<char>, Seq<char>),
    Seq<char>,
> {
    match parse_usize_spec(min_window) {
        Err(k) => Err("Error: parsing min_window: "@ + int_error_text(k)),
        Ok(w) => match parse_usize_spec(n_iter) {
            Err(k) => Err("Error: parsing n_iter: "@ + int_error_text(k)),
            Ok(n) => match titled_data_path_spec(os, price_series_file()) {
                None => Err(incorrect_os_text()),
                Some(input) => Ok(
                    (w, n, input, titled_data_path_spec(os, rs_series_file())->Some_0),
                ),
            },
        },
    }
}

/// A request is accepted exactly when both counts parse and the operating
/// system is known; then the counts are the numbers their texts spell, the
/// series is read from `price_series.json` and the results are written to
/// `rs_series.json`, both in the data directory of that system, so the
/// results never overwrite the series.
pub proof fn lemma_rs_request_files(os: Seq<char>, min_window: Seq<char>, n_iter: Seq<char>)
    ensures
        rs_request_spec(os, min_window, n_iter) is Ok <==> (parse_usize_spec(min_window) is Ok
            && parse_usize_spec(n_iter) is Ok && (os == "Windows"@ || os == "Linux"@)),
        rs_request_spec(os, min_window, n_iter) matches Ok((w, n, input, output)) ==> {
            let dir = if os == "Windows"@ {
                ".\\data\\"@
            } else {
                "./data/"@
            };
            &&& w == parse_usize_spec(min_window)->Ok_0
            &&& n == parse_usize_spec(n_iter)->Ok_0
            &&& input == dir + "price_series.json"@
            &&& output == dir + "rs_series.json"@
            &&& input != output
        },
{
    reveal_strlit("price_series.json");
    reveal_strlit("rs_series.json");
    reveal_strlit(".\\data\\");
    reveal_strlit("./data/");
    if let Ok((w, n, input, output)) = rs_request_spec(os, min_window, n_iter) {
        assert(input.len() != output.len());
    }
}

/// Reads the arguments of the R/S service.
pub fn rs_request(os: &str, min_window: &str, n_iter: &str) -> (res: Result<RsRequest, String>)
    ensures
        match rs_request_spec(os@, min_window@, n_iter@) {
            Ok((w, n, input, output)) => res is Ok && res->Ok_0.min_window == w
                && res->Ok_0.n_iter == n && res->Ok_0.series_path@ == input
                && res->Ok_0.output_path@ == output,
            Err(m) => res is Err && res->Err_0@ == m,
        },
        res is Ok ==> {
            &&& res->Ok_0.min_window == parse_usize_spec(min_window@)->Ok_0
            &&& res->Ok_0.n_iter == parse_usize_spec(n_iter@)->Ok_0
            &&& res->Ok_0.series_path@ == titled_data_path_spec(os@, "price_series.json"@)->Some_0
            &&& res->Ok_0.output_path@ == titled_data_path_spec(os@, "rs_series.json"@)->Some_0
            &&& res->Ok_0.output_path@ != res->Ok_0.series_path@
        },
{
    proof {
        lemma_rs_request_files(os@, min_window@, n_iter@);
    }
    let min_window = match parse_usize(min_window) {
        Ok(w) => w,
        Err(k) => {
            let msg = int_error_message(k);
            return Err(concat("Error: parsing min_window: ", msg.as_str()));
        },
    };
    let n_iter = match parse_usize(n_iter) {
        Ok(n) => n,
        Err(k) => {
            let msg = int_error_message(k);
            return Err(concat("Error: parsing n_iter: ", msg.as_str()));
        },
    };
    let series_path = match titled_data_path(os, "price_series.json") {
        Ok(p) => p,
        Err(e) => return Err(e),
    };
    let output_path = match titled_data_path(os, "rs_series.json") {
        Ok(p) => p,
        Err(e) => return Err(e),
    };
    Ok(RsRequest { min_window, n_iter, series_path, output_path })
}

} // verus!
