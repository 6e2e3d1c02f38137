//! The texts of the about dialog.

use vstd::prelude::*;

use crate::text::str_eq;

verus! {

/// The version shown in the about dialog: in the development profile the
/// version, the VCS tag and a `(devel)` mark, otherwise the version alone.
pub open spec fn spec_version_label(profile: Seq<char>, version: Seq<char>, vcs_tag: Seq<char>) -> Seq<
    char,
> {
    if profile == "development"@ {
        version + "-"@ + vcs_tag + " (devel)"@
    } else {
        version
    }
}

/// The version label for the about dialog.
pub fn version_label(profile: &str, version: &str, vcs_tag: &str) -> (r: String)
    ensures
        r@ == spec_version_label(profile@, version@, vcs_tag@),
        profile@ != "development"@ ==> r@ == version@,
        profile@ == "development"@ ==> r@ == version@ + "-"@ + vcs_tag@ + " (devel)"@,
{
    if str_eq(profile, "development") {
        let mut s = String::from_str(version);
        s.append("-");
        s.append(vcs_tag);
        s.append(" (devel)");
        s
    } else {
        String::from_str(version)
    }
}

/// Outside the development profile the label is the version alone,
/// whatever the VCS tag (the empty tag included): the tag and the
/// `(devel)` mark appear in the development profile only.
pub proof fn lemma_version_label_profiles(
    profile: Seq<char>,
    version: Seq<char>,
    tag1: Seq<char>,
    tag2: Seq<char>,
)
    ensures
        profile != "development"@ ==> spec_version_label(profile, version, tag1) == version,
        profile != "development"@ ==> spec_version_label(profile, version, tag1)
            == spec_version_label(profile, version, tag2),
        profile == "development"@ ==> spec_version_label(profile, version, tag1) == version + "-"@
            + tag1 + " (devel)"@,
        profile == "development"@ ==> spec_version_label(profile, version, tag1).len() == version.len()
            + tag1.len() + 9,
{
    reveal_strlit("-");
    reveal_strlit(" (devel)");
}

/// The resource path of the application's metainfo, under the resource
/// base path `path_id`.
pub fn metainfo_path(path_id: &str) -> (r: String)
    ensures
        r@ == path_id@ + "/metainfo.xml"@,
{
    let mut s = String::from_str(path_id);
    s.append("/metainfo.xml");
    s
}

} // verus!
