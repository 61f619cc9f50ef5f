//! Naming for records mirrored to remote object storage.

use vstd::prelude::*;
use vstd::string::StringExecFns;

verus! {

/// The object key under which a deal document is stored remotely:
/// `standalone/{user}/deals/{deal}/documents/{document}_{filename}`.
pub fn generate_s3_key(
    user_id: &str,
    deal_id: &str,
    document_id: &str,
    filename: &str,
) -> (r: String)
    ensures
        r@ == "standalone/"@ + user_id@ + "/deals/"@ + deal_id@ + "/documents/"@ + document_id@
            + "_"@ + filename@,
{
    let mut s = "standalone/".to_owned();
    s.append(user_id);
    s.append("/deals/");
    s.append(deal_id);
    s.append("/documents/");
    s.append(document_id);
    s.append("_");
    s.append(filename);
    s
}

} // verus!
