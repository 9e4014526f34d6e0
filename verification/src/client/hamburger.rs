//! Defaults of the menu behind the hamburger button.
use vstd::prelude::*;

verus! {

/// The project's source repository.
pub const GITHUB_URL: &'static str = "https://github.com/TryCli-Studio/trycli";

/// The project's page on X.
pub const TWITTER_URL: &'static str = "https://x.com/tryclistudio";

/// Where visitors can support the project.
pub const SUPPORT_URL: &'static str = "https://ko-fi.com/tryclistudio";

/// A setting of the menu, or its default when the setting is empty.
pub fn or_default(given: String, default: &str) -> (r: String)
    ensures
        r@ == if given@.len() == 0 { default@ } else { given@ },
{
    if given.as_str().is_empty() {
        default.to_owned()
    } else {
        given
    }
}

} // verus!
