use vstd::prelude::*;

verus! {

/// Endpoints of the resource lookup service, in the order they are tried.
pub const API_URL_V4: &'static str = "https://api.ratscanner.com/v4/res";

pub const API_URL_V3: &'static str = "https://api.ratscanner.com/v3/res";

pub const API_URL_V2: &'static str = "https://api.ratscanner.com/v2/res/";

pub open spec fn api_urls() -> Seq<Seq<char>> {
    seq![API_URL_V4@, API_URL_V3@, API_URL_V2@]
}

/// The addresses at which `resource` is looked up, in the order to try
/// them: each endpoint followed by the resource name.
pub fn resource_urls(resource: &str) -> (r: Vec<String>)
    ensures
        r@.len() == api_urls().len(),
        forall|i: int| 0 <= i < r@.len() ==> (#[trigger] r@[i])@ == api_urls()[i] + resource@,
{
    let mut a = String::from_str(API_URL_V4);
    a.append(resource);
    let mut b = String::from_str(API_URL_V3);
    b.append(resource);
    let mut c = String::from_str(API_URL_V2);
    c.append(resource);
    let mut r: Vec<String> = Vec::new();
    r.push(a);
    r.push(b);
    r.push(c);
    r
}

} // verus!
