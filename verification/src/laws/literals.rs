//! The literals of the two enumerations.

use crate::error::Failure;
use crate::laws::tags::lemma_tags;
use crate::number::is_real;
use crate::records::asset::AssetText;
use crate::records::asset::AssetView;
use crate::records::asset::UpAxis;
use crate::records::location::AltitudeMode;
use crate::records::location::LocationView;
use crate::xml::Node;
use vstd::prelude::*;

verus! {

/// Each axis is named by its own literal and by nothing else: reading the
/// literal of an axis gives the axis, and the literal of the axis that a text
/// was read as is that text.
pub proof fn lemma_up_axis_literals(axis: UpAxis, t: Seq<char>)
    ensures
        UpAxis::named(axis.literal()) == Some(axis),
        UpAxis::named(t) matches Some(read) ==> read.literal() == t,
{
    lemma_tags();
}

/// In an asset, the text of an `up_axis` that is the literal of an axis sets
/// that axis, and any other text is refused as invalid data, with that text.
pub proof fn lemma_up_axis_in_asset(s: AssetView, t: Seq<char>)
    ensures
        s.with_text(AssetText::UpAxis, t) == match UpAxis::named(t) {
            Some(axis) => Ok::<AssetView, Failure>(AssetView { up_axis: Some(axis), ..s }),
            None => Err::<AssetView, Failure>(Failure::InvalidData { elem: "up_axis"@, data: t }),
        },
{
    lemma_tags();
}

/// Each mode is named by its own literal and by nothing else.
pub proof fn lemma_altitude_mode_literals(mode: AltitudeMode, t: Seq<char>)
    ensures
        AltitudeMode::named(mode.literal()) == Some(mode),
        AltitudeMode::named(t) matches Some(read) ==> read.literal() == t,
{
    lemma_tags();
}

/// In a location, an `altitude` that carries a number and a `mode` with the
/// literal of a mode sets that mode, and one with any other `mode` is refused
/// as invalid data of the `altitude`, with that text.
pub proof fn lemma_altitude_mode_in_location(s: LocationView, c: Node)
    requires
        c.name == "altitude"@,
        c.text matches Some(t) && is_real(t),
        c.attributes.contains_key("mode"@),
    ensures
        s.step(c) == match AltitudeMode::named(c.attributes["mode"@]) {
            Some(mode) => Ok::<LocationView, Failure>(
                LocationView { altitude: c.text->Some_0, mode, ..s },
            ),
            None => Err::<LocationView, Failure>(
                Failure::InvalidData { elem: "altitude"@, data: c.attributes["mode"@] },
            ),
        },
{
    lemma_tags();
}

} // verus!
