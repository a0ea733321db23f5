use vstd::prelude::*;
use crate::integration::catalog::{IntegrationSpec, spec_fields};

verus! {

/// One row of the integrations panel.
#[derive(Clone)]
pub struct IntegrationRow {
    pub key: String,
    pub label: String,
    pub state: String,
    pub category: String,
    pub description: String,
    pub available: bool,
    pub partially_supported: bool,
    pub required: bool,
}

/// The state shown for an integration.
pub open spec fn state_spec(required: bool, enabled: bool, available: bool, partial: bool) -> Seq<char> {
    if required {
        "[required]"@
    } else if !available && !partial {
        "[missing]"@
    } else if enabled && available {
        "[active]"@
    } else if enabled && partial {
        "[partial]"@
    } else if enabled {
        "[on]"@
    } else {
        "[off]"@
    }
}

/// A row as text and flags.
pub open spec fn row_fields(r: IntegrationRow) -> (Seq<char>, Seq<char>, Seq<char>, Seq<char>, Seq<char>, bool, bool, bool) {
    (r.key@, r.label@, r.state@, r.category@, r.description@, r.available, r.partially_supported, r.required)
}

/// The row of one integration.
pub open spec fn row_spec(s: (Seq<char>, Seq<char>, Seq<char>, bool), enabled: bool, support: (bool, bool)) -> (Seq<char>, Seq<char>, Seq<char>, Seq<char>, Seq<char>, bool, bool, bool) {
    (s.0, s.0, state_spec(s.3, enabled, support.0, support.1), s.2, s.1, support.0, support.1, s.3)
}

/// The row that switches all optional integrations at once.
pub open spec fn all_row_spec(all_on: bool) -> (Seq<char>, Seq<char>, Seq<char>, Seq<char>, Seq<char>, bool, bool, bool) {
    ("__all_optional__"@, "__all_optional__"@, if all_on { "[on]"@ } else { "[off]"@ }, "global"@,
        "Toggle all optional integrations on/off"@, true, false, false)
}

/// The rows of the integrations panel: the switch for all optional
/// integrations, then one row per catalog entry, whose `enabled[i]` and
/// `support[i]` (available, partially supported) say how it stands.
pub fn build_integration_rows(
    all_on: bool,
    catalog: Vec<IntegrationSpec>,
    enabled: Vec<bool>,
    support: Vec<(bool, bool)>,
) -> (rows: Vec<IntegrationRow>)
    requires
        enabled@.len() == catalog@.len(),
        support@.len() == catalog@.len(),
    ensures
        rows@.len() == catalog@.len() + 1,
        row_fields(rows@[0]) == all_row_spec(all_on),
        forall|i: int| 0 <= i < catalog@.len() ==> row_fields(#[trigger] rows@[i + 1]) == row_spec(
            spec_fields(catalog@[i]),
            enabled@[i],
            support@[i],
        ),
{
    let mut rows: Vec<IntegrationRow> = Vec::new();
    rows.push(IntegrationRow {
        key: "__all_optional__".to_owned(),
        label: "__all_optional__".to_owned(),
        state: if all_on { "[on]".to_owned() } else { "[off]".to_owned() },
        category: "global".to_owned(),
        description: "Toggle all optional integrations on/off".to_owned(),
        available: true,
        partially_supported: false,
        required: false,
    });
    let mut i: usize = 0;
    while i < catalog.len()
        invariant
            i <= catalog.len(),
            enabled@.len() == catalog@.len(),
            support@.len() == catalog@.len(),
            rows@.len() == i + 1,
            row_fields(rows@[0]) == all_row_spec(all_on),
            forall|k: int| 0 <= k < i ==> row_fields(#[trigger] rows@[k + 1]) == row_spec(
                spec_fields(catalog@[k]),
                enabled@[k],
                support@[k],
            ),
        decreases catalog.len() - i,
    {
        let spec = &catalog[i];
        let (available, partially_supported) = support[i];
        let on = enabled[i];
        let state = if spec.required {
            "[required]".to_owned()
        } else if !available && !partially_supported {
            "[missing]".to_owned()
        } else if on && available {
            "[active]".to_owned()
        } else if on && partially_supported {
            "[partial]".to_owned()
        } else if on {
            "[on]".to_owned()
        } else {
            "[off]".to_owned()
        };
        rows.push(IntegrationRow {
            key: spec.key.to_owned(),
            label: spec.key.to_owned(),
            state,
            category: spec.category.to_owned(),
            description: spec.description.to_owned(),
            available,
            partially_supported,
            required: spec.required,
        });
        i = i + 1;
    }
    rows
}

} // verus!
