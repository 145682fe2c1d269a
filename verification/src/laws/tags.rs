//! The literals of the schema, told apart.

use vstd::prelude::*;

verus! {

/// The length and the first character of each tag, attribute name and
/// literal of the schema, and one more character where two of them share
/// both: enough to tell any two apart.
pub proof fn lemma_tags()
    ensures
        "asset"@.len() == 5 && "asset"@[0] == 'a',
        "contributor"@.len() == 11 && "contributor"@[0] == 'c',
        "coverage"@.len() == 8 && "coverage"@[0] == 'c',
        "extra"@.len() == 5 && "extra"@[0] == 'e',
        "unit"@.len() == 4 && "unit"@[0] == 'u',
        "created"@.len() == 7 && "created"@[0] == 'c',
        "keywords"@.len() == 8 && "keywords"@[0] == 'k',
        "modified"@.len() == 8 && "modified"@[0] == 'm',
        "revision"@.len() == 8 && "revision"@[0] == 'r',
        "subject"@.len() == 7 && "subject"@[0] == 's',
        "title"@.len() == 5 && "title"@[0] == 't',
        "up_axis"@.len() == 7 && "up_axis"@[0] == 'u',
        "author"@.len() == 6,
        "author_email"@.len() == 12,
        "author_website"@.len() == 14 && "author_website"@[6] == '_',
        "authoring_tool"@.len() == 14 && "authoring_tool"@[6] == 'i',
        "comments"@.len() == 8,
        "copyright"@.len() == 9,
        "source_data"@.len() == 11,
        "geographic_location"@.len() == 19,
        "longitude"@.len() == 9,
        "latitude"@.len() == 8 && "latitude"@[0] == 'l',
        "altitude"@.len() == 8 && "altitude"@[0] == 'a',
        "mode"@.len() == 4 && "mode"@[0] == 'm',
        "absolute"@.len() == 8,
        "relativeToGround"@.len() == 16,
        "technique"@.len() == 9,
        "profile"@.len() == 7,
        "id"@.len() == 2,
        "name"@.len() == 4 && "name"@[0] == 'n',
        "type"@.len() == 4 && "type"@[0] == 't',
        "meter"@.len() == 5,
        "X_UP"@.len() == 4 && "X_UP"@[0] == 'X',
        "Y_UP"@.len() == 4 && "Y_UP"@[0] == 'Y',
        "Z_UP"@.len() == 4 && "Z_UP"@[0] == 'Z',
{
    reveal_strlit("asset");
    reveal_strlit("contributor");
    reveal_strlit("coverage");
    reveal_strlit("extra");
    reveal_strlit("unit");
    reveal_strlit("created");
    reveal_strlit("keywords");
    reveal_strlit("modified");
    reveal_strlit("revision");
    reveal_strlit("subject");
    reveal_strlit("title");
    reveal_strlit("up_axis");
    reveal_strlit("author");
    reveal_strlit("author_email");
    reveal_strlit("author_website");
    reveal_strlit("authoring_tool");
    reveal_strlit("comments");
    reveal_strlit("copyright");
    reveal_strlit("source_data");
    reveal_strlit("geographic_location");
    reveal_strlit("longitude");
    reveal_strlit("latitude");
    reveal_strlit("altitude");
    reveal_strlit("mode");
    reveal_strlit("absolute");
    reveal_strlit("relativeToGround");
    reveal_strlit("technique");
    reveal_strlit("profile");
    reveal_strlit("id");
    reveal_strlit("name");
    reveal_strlit("type");
    reveal_strlit("meter");
    reveal_strlit("X_UP");
    reveal_strlit("Y_UP");
    reveal_strlit("Z_UP");
}

} // verus!
