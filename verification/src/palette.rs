//! The color palette: a fixed, ordered catalogue of recognized label colors.
//!
//! Catalogue order is significant: when a label is created without an
//! explicit color, the engine allocates the first catalogue entry not yet
//! used by any label of the annotation.

use vstd::prelude::*;
use vstd::string::StringExecFns;

use crate::error::CommonError;
use crate::model::{color_used, Label, LabelView};

verus! {

/// One entry of the color catalogue: a recognized color name and the
/// display value it stands for.
#[derive(Debug, Clone)]
pub struct ColorEntry {
    pub name: String,
    pub value: String,
}

/// The catalogue's color names, in allocation order.
pub open spec fn color_names() -> Seq<Seq<char>> {
    seq![
        "dark_blue"@,
        "blue"@,
        "dodger_blue"@,
        "steel_blue"@,
        "purple"@,
        "pink"@,
        "red"@,
        "brown"@,
        "coral"@,
        "burly_wood"@,
        "orange"@,
        "yellow"@,
        "green_yellow"@,
        "olive"@,
        "green"@,
        "aquamarine"@,
        "cyan"@,
        "dark_cyan"@,
        "gray"@,
        "light_gray"@,
    ]
}

/// The display values matching [`color_names`], entry for entry.
pub open spec fn color_values() -> Seq<Seq<char>> {
    seq![
        "#00008B"@,
        "#4169E1"@,
        "#1E90FF"@,
        "#4682B4"@,
        "#663399"@,
        "#FF69B4"@,
        "#8B0000"@,
        "#A0522D"@,
        "#FF7F50"@,
        "#DEB887"@,
        "#FFA500"@,
        "#FFD700"@,
        "#ADFF2F"@,
        "#808000"@,
        "#228B22"@,
        "#7FFFD4"@,
        "#00FFFF"@,
        "#008B8B"@,
        "#A9A9A9"@,
        "#D3D3D3"@,
    ]
}

/// True iff `c` is the name of a catalogue entry.
pub open spec fn recognized_color(c: Seq<char>) -> bool {
    color_names().contains(c)
}

/// The first catalogue color from position `k` on that no label of `labels`
/// uses, or `None` when every remaining entry is taken.
pub open spec fn first_free_from(labels: Seq<LabelView>, k: int) -> Option<Seq<char>>
    decreases color_names().len() - k,
{
    if k < 0 || k >= color_names().len() {
        None
    } else if !color_used(labels, color_names()[k]) {
        Some(color_names()[k])
    } else {
        first_free_from(labels, k + 1)
    }
}

/// The first catalogue color, in catalogue order, that no label of `labels`
/// uses; `None` when the palette is exhausted.
pub open spec fn first_free_color(labels: Seq<LabelView>) -> Option<Seq<char>> {
    first_free_from(labels, 0)
}

/// The full catalogue of recognized colors, in allocation order.
pub fn label_colors() -> (catalogue: Vec<ColorEntry>)
    ensures
        catalogue@.len() == color_names().len(),
        forall|i: int|
            0 <= i < catalogue@.len()
                ==> (#[trigger] catalogue@[i].name)@ == color_names()[i]
                    && catalogue@[i].value@ == color_values()[i],
{
    let mut catalogue: Vec<ColorEntry> = Vec::new();
    catalogue.push(ColorEntry { name: String::from_str("dark_blue"), value: String::from_str("#00008B") });
    catalogue.push(ColorEntry { name: String::from_str("blue"), value: String::from_str("#4169E1") });
    catalogue.push(ColorEntry { name: String::from_str("dodger_blue"), value: String::from_str("#1E90FF") });
    catalogue.push(ColorEntry { name: String::from_str("steel_blue"), value: String::from_str("#4682B4") });
    catalogue.push(ColorEntry { name: String::from_str("purple"), value: String::from_str("#663399") });
    catalogue.push(ColorEntry { name: String::from_str("pink"), value: String::from_str("#FF69B4") });
    catalogue.push(ColorEntry { name: String::from_str("red"), value: String::from_str("#8B0000") });
    catalogue.push(ColorEntry { name: String::from_str("brown"), value: String::from_str("#A0522D") });
    catalogue.push(ColorEntry { name: String::from_str("coral"), value: String::from_str("#FF7F50") });
    catalogue.push(ColorEntry { name: String::from_str("burly_wood"), value: String::from_str("#DEB887") });
    catalogue.push(ColorEntry { name: String::from_str("orange"), value: String::from_str("#FFA500") });
    catalogue.push(ColorEntry { name: String::from_str("yellow"), value: String::from_str("#FFD700") });
    catalogue.push(ColorEntry { name: String::from_str("green_yellow"), value: String::from_str("#ADFF2F") });
    catalogue.push(ColorEntry { name: String::from_str("olive"), value: String::from_str("#808000") });
    catalogue.push(ColorEntry { name: String::from_str("green"), value: String::from_str("#228B22") });
    catalogue.push(ColorEntry { name: String::from_str("aquamarine"), value: String::from_str("#7FFFD4") });
    catalogue.push(ColorEntry { name: String::from_str("cyan"), value: String::from_str("#00FFFF") });
    catalogue.push(ColorEntry { name: String::from_str("dark_cyan"), value: String::from_str("#008B8B") });
    catalogue.push(ColorEntry { name: String::from_str("gray"), value: String::from_str("#A9A9A9") });
    catalogue.push(ColorEntry { name: String::from_str("light_gray"), value: String::from_str("#D3D3D3") });
    proof {
        assert(catalogue@.map_values(|e: ColorEntry| e.name@) =~= color_names());
        assert(catalogue@.map_values(|e: ColorEntry| e.value@) =~= color_values());
        assert forall|i: int| 0 <= i < catalogue@.len() implies (#[trigger] catalogue@[i].name)@
            == color_names()[i] && catalogue@[i].value@ == color_values()[i] by {
            assert(catalogue@.map_values(|e: ColorEntry| e.name@)[i] == catalogue@[i].name@);
            assert(catalogue@.map_values(|e: ColorEntry| e.value@)[i] == catalogue@[i].value@);
        }
    }
    catalogue
}

/// True iff `color` names a catalogue entry.
pub fn is_valid_color(color: String) -> (valid: bool)
    ensures
        valid == recognized_color(color@),
{
    let catalogue = label_colors();
    let mut k: usize = 0;
    while k < catalogue.len()
        invariant
            k <= catalogue.len(),
            catalogue@.len() == color_names().len(),
            forall|i: int|
                0 <= i < catalogue@.len()
                    ==> (#[trigger] catalogue@[i].name)@ == color_names()[i],
            forall|j: int| 0 <= j < k ==> color_names()[j] != color@,
        decreases catalogue.len() - k,
    {
        if catalogue[k].name == color {
            return true;
        }
        k += 1;
    }
    false
}

/// True iff some label of `labels` already carries the color `color`.
pub fn is_color_used(color: String, labels: &Vec<Label>) -> (used: bool)
    ensures
        used == color_used(labels.deep_view(), color@),
{
    let mut i: usize = 0;
    while i < labels.len()
        invariant
            i <= labels.len(),
            forall|j: int| 0 <= j < i ==> labels.deep_view()[j].color != color@,
        decreases labels.len() - i,
    {
        if labels[i].color == color {
            assert(labels.deep_view()[i as int].color == color@);
            return true;
        }
        i += 1;
    }
    false
}

/// The first catalogue color, in catalogue order, not used by any label of
/// `labels`; fails when every catalogue entry is taken.
pub fn get_next_valid_color(labels: &Vec<Label>) -> (next: Result<String, CommonError>)
    ensures
        match next {
            Ok(c) => first_free_color(labels.deep_view()) == Some(c@),
            Err(_) => first_free_color(labels.deep_view()) is None,
        },
{
    let catalogue = label_colors();
    let mut k: usize = 0;
    while k < catalogue.len()
        invariant
            k <= catalogue.len(),
            catalogue@.len() == color_names().len(),
            forall|i: int|
                0 <= i < catalogue@.len()
                    ==> (#[trigger] catalogue@[i].name)@ == color_names()[i],
            first_free_color(labels.deep_view()) == first_free_from(labels.deep_view(), k as int),
        decreases catalogue.len() - k,
    {
        let name = catalogue[k].name.clone();
        if !is_color_used(name, labels) {
            return Ok(catalogue[k].name.clone());
        }
        k += 1;
    }
    Err(CommonError { description: String::from_str("All colors are used") })
}

} // verus!
