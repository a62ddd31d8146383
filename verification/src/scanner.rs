//! Endpoint-level parameter analysis: apply the classifier to every
//! parameter of an endpoint, prioritize and filter the results, and render
//! a human-readable summary.

use vstd::prelude::*;
use crate::classifier::{
    analyzed_matches, filter_by_risk, sort_desc_spec, sorted_desc, DetectedParameter,
    ParameterDetector,
};
use crate::models::{Endpoint, ParameterLocation};
use crate::text::{
    contains_seq, dec_spec, starts_with_seq, str_contains, str_starts_with, u64_to_string,
};

verus! {

/// The location inferred for a parameter name: `body.` prefixed names are
/// body fields, names appearing as `{name}` in the path template are path
/// parameters, everything else travels in the query string.
pub open spec fn infer_location_spec(name: Seq<char>, path: Seq<char>) -> ParameterLocation {
    if starts_with_seq(name, "body."@) {
        ParameterLocation::Body
    } else if contains_seq(path, seq!['{'] + name + seq!['}']) {
        ParameterLocation::Path
    } else {
        ParameterLocation::Query
    }
}

/// Infer a parameter's location from its naming convention and the path.
pub fn infer_parameter_location(param_name: &str, endpoint_path: &str) -> (r: ParameterLocation)
    ensures
        r == infer_location_spec(param_name@, endpoint_path@),
{
    if str_starts_with(param_name, "body.") {
        return ParameterLocation::Body;
    }
    let needle = "{".to_owned().concat(param_name).concat("}");
    proof {
        reveal_strlit("{");
        reveal_strlit("}");
        assert(needle@ =~= seq!['{'] + param_name@ + seq!['}']);
    }
    if str_contains(endpoint_path, needle.as_str()) {
        ParameterLocation::Path
    } else {
        ParameterLocation::Query
    }
}

/// The per-name analysis results of an endpoint, before prioritization.
pub open spec fn endpoint_analysis(e: Endpoint, d: Seq<DetectedParameter>) -> bool {
    &&& d.len() == e.params@.len()
    &&& forall|i: int|
        0 <= i < d.len() ==> analyzed_matches(
            #[trigger] d[i],
            e.params@[i]@,
            e.path@,
            e.method.name_seq(),
            infer_location_spec(e.params@[i]@, e.path@),
            true,
        )
}

/// Analyze every parameter of an endpoint and return the results sorted by
/// descending BOLA risk. Every parameter is treated as required; the location is
/// inferred from naming conventions.
pub fn analyze_endpoint_parameters(endpoint: &Endpoint) -> (r: Vec<DetectedParameter>)
    ensures
        exists|d: Seq<DetectedParameter>|
            #[trigger] endpoint_analysis(*endpoint, d) && r@ == sort_desc_spec(d),
        sorted_desc(r@),
{
    let mut detected: Vec<DetectedParameter> = Vec::new();
    let method_str = endpoint.method.as_str();
    let mut i: usize = 0;
    while i < endpoint.params.len()
        invariant
            0 <= i <= endpoint.params@.len(),
            method_str@ == endpoint.method.name_seq(),
            detected@.len() == i,
            forall|j: int|
                0 <= j < i ==> analyzed_matches(
                    #[trigger] detected@[j],
                    endpoint.params@[j]@,
                    endpoint.path@,
                    endpoint.method.name_seq(),
                    infer_location_spec(endpoint.params@[j]@, endpoint.path@),
                    true,
                ),
        decreases endpoint.params@.len() - i,
    {
        let param_name = endpoint.params[i].as_str();
        let location = infer_parameter_location(param_name, endpoint.path.as_str());
        let det = ParameterDetector::analyze_parameter(
            param_name,
            endpoint.path.as_str(),
            method_str,
            location,
            true,
        );
        detected.push(det);
        i = i + 1;
    }
    let ghost d = detected@;
    proof {
        assert(endpoint_analysis(*endpoint, d));
    }
    let r = ParameterDetector::prioritize_parameters(detected);
    r
}

/// Analyze an endpoint and keep only its high-risk parameters, in
/// descending risk order.
pub fn get_high_risk_params(endpoint: &Endpoint, min_risk_score: u8) -> (r: Vec<DetectedParameter>)
    ensures
        exists|d: Seq<DetectedParameter>|
            #[trigger] endpoint_analysis(*endpoint, d) && r@ == filter_by_risk(
                sort_desc_spec(d),
                min_risk_score,
            ),
{
    let all_params = analyze_endpoint_parameters(endpoint);
    let ghost d = choose|d: Seq<DetectedParameter>|
        #[trigger] endpoint_analysis(*endpoint, d) && all_params@ == sort_desc_spec(d);
    let r = ParameterDetector::filter_high_risk(all_params, min_risk_score);
    r
}

/// One summary line for a parameter.
pub open spec fn summary_line(p: DetectedParameter) -> Seq<char> {
    "  - "@ + p.name@ + " (risk: "@ + dec_spec(p.bola_risk_score as nat) + ", type: "@
        + p.param_type.label_seq() + ", confidence: "@ + p.confidence.label_seq() + ")\n"@
}

/// The summary lines for the first `k` parameters.
pub open spec fn summary_lines(d: Seq<DetectedParameter>, k: int) -> Seq<char>
    decreases k,
{
    if k <= 0 {
        Seq::empty()
    } else {
        summary_lines(d, k - 1) + summary_line(d[k - 1])
    }
}

/// The whole summary: method, path and parameter count, then one line for
/// each of the top five parameters.
pub open spec fn summary_of(m: Seq<char>, path: Seq<char>, d: Seq<DetectedParameter>) -> Seq<
    char,
> {
    if d.len() == 0 {
        m + " "@ + path + " - No parameters detected"@
    } else {
        let k = if d.len() < 5 {
            d.len() as int
        } else {
            5int
        };
        m + " "@ + path + " - "@ + dec_spec(d.len()) + " parameter(s):\n"@ + summary_lines(d, k)
    }
}

/// Render a short report of an endpoint's analyzed parameters, highest
/// risk first, at most five shown.
#[verifier::loop_isolation(false)]
#[verifier::rlimit(60)]
pub fn get_parameter_summary(endpoint: &Endpoint) -> (r: String)
    ensures
        exists|d: Seq<DetectedParameter>|
            #[trigger] endpoint_analysis(*endpoint, d) && r@ == summary_of(
                endpoint.method.name_seq(),
                endpoint.path@,
                sort_desc_spec(d),
            ),
{
    let params = analyze_endpoint_parameters(endpoint);
    let ghost d = choose|d: Seq<DetectedParameter>|
        #[trigger] endpoint_analysis(*endpoint, d) && params@ == sort_desc_spec(d);

    if params.len() == 0 {
        let mut s = endpoint.method.as_str().to_owned();
        s.append(" ");
        s.append(endpoint.path.as_str());
        s.append(" - No parameters detected");
        proof {
            assert(s@ =~= summary_of(endpoint.method.name_seq(), endpoint.path@, params@));
        }
        return s;
    }

    let mut s = endpoint.method.as_str().to_owned();
    s.append(" ");
    s.append(endpoint.path.as_str());
    s.append(" - ");
    let count = u64_to_string(params.len() as u64);
    s.append(count.as_str());
    s.append(" parameter(s):\n");
    let ghost header = s@;
    proof {
        assert(header =~= endpoint.method.name_seq() + " "@ + endpoint.path@ + " - "@ + dec_spec(
            params@.len(),
        ) + " parameter(s):\n"@);
    }

    let limit = if params.len() < 5 {
        params.len()
    } else {
        5
    };
    let mut i: usize = 0;
    while i < limit
        invariant
            0 <= i <= limit,
            s@ == header + summary_lines(params@, i as int),
        decreases limit - i,
    {
        let p = &params[i];
        s.append("  - ");
        s.append(p.name.as_str());
        s.append(" (risk: ");
        let num = u64_to_string(p.bola_risk_score as u64);
        s.append(num.as_str());
        s.append(", type: ");
        s.append(p.param_type.label());
        s.append(", confidence: ");
        s.append(p.confidence.label());
        s.append(")\n");
        proof {
            assert(s@ =~= header + (summary_lines(params@, i as int) + summary_line(
                params@[i as int],
            )));
        }
        i = i + 1;
    }
    proof {
        assert(s@ =~= summary_of(endpoint.method.name_seq(), endpoint.path@, params@));
    }
    s
}

} // verus!
