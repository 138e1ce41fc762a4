//! Metrics: the named, categorised values measured for a crate.

use crate::row_reader::chrono_timestamp_valid;
use vstd::prelude::*;

verus! {

/// The category a metric belongs to.
#[derive(Debug, Clone, Copy, PartialEq, Eq, Structural, Hash)]
pub enum MetricCategory {
    Metadata,
    Stability,
    Usage,
    Community,
    Activity,
    Documentation,
    Trustworthiness,
    Codebase,
    Advisories,
}

/// The display name of a category (the variant's name).
pub open spec fn category_name(c: MetricCategory) -> Seq<char> {
    match c {
        MetricCategory::Metadata => seq!['M', 'e', 't', 'a', 'd', 'a', 't', 'a'],
        MetricCategory::Stability => seq!['S', 't', 'a', 'b', 'i', 'l', 'i', 't', 'y'],
        MetricCategory::Usage => seq!['U', 's', 'a', 'g', 'e'],
        MetricCategory::Community => seq!['C', 'o', 'm', 'm', 'u', 'n', 'i', 't', 'y'],
        MetricCategory::Activity => seq!['A', 'c', 't', 'i', 'v', 'i', 't', 'y'],
        MetricCategory::Documentation => seq!['D', 'o', 'c', 'u', 'm', 'e', 'n', 't', 'a', 't', 'i', 'o', 'n'],
        MetricCategory::Trustworthiness => seq!['T', 'r', 'u', 's', 't', 'w', 'o', 'r', 't', 'h', 'i', 'n', 'e', 's', 's'],
        MetricCategory::Codebase => seq!['C', 'o', 'd', 'e', 'b', 'a', 's', 'e'],
        MetricCategory::Advisories => seq!['A', 'd', 'v', 'i', 's', 'o', 'r', 'i', 'e', 's'],
    }
}

/// The categories in declaration order.
pub open spec fn category_at(i: int) -> MetricCategory {
    if i == 0 {
        MetricCategory::Metadata
    } else if i == 1 {
        MetricCategory::Stability
    } else if i == 2 {
        MetricCategory::Usage
    } else if i == 3 {
        MetricCategory::Community
    } else if i == 4 {
        MetricCategory::Activity
    } else if i == 5 {
        MetricCategory::Documentation
    } else if i == 6 {
        MetricCategory::Trustworthiness
    } else if i == 7 {
        MetricCategory::Codebase
    } else {
        MetricCategory::Advisories
    }
}

/// The position of a category in declaration order.
pub open spec fn category_index(c: MetricCategory) -> int {
    match c {
        MetricCategory::Metadata => 0,
        MetricCategory::Stability => 1,
        MetricCategory::Usage => 2,
        MetricCategory::Community => 3,
        MetricCategory::Activity => 4,
        MetricCategory::Documentation => 5,
        MetricCategory::Trustworthiness => 6,
        MetricCategory::Codebase => 7,
        MetricCategory::Advisories => 8,
    }
}

impl MetricCategory {
    /// The position of this category in declaration order.
    pub fn index(self) -> (r: usize)
        ensures
            r == category_index(self),
            r < 9,
    {
        match self {
            MetricCategory::Metadata => 0,
            MetricCategory::Stability => 1,
            MetricCategory::Usage => 2,
            MetricCategory::Community => 3,
            MetricCategory::Activity => 4,
            MetricCategory::Documentation => 5,
            MetricCategory::Trustworthiness => 6,
            MetricCategory::Codebase => 7,
            MetricCategory::Advisories => 8,
        }
    }

    /// The display name of this category.
    pub fn name(self) -> (r: &'static str)
        ensures
            r@ == category_name(self),
    {
        match self {
            MetricCategory::Metadata => {
                proof { reveal_strlit("Metadata"); }
                "Metadata"
            },
            MetricCategory::Stability => {
                proof { reveal_strlit("Stability"); }
                "Stability"
            },
            MetricCategory::Usage => {
                proof { reveal_strlit("Usage"); }
                "Usage"
            },
            MetricCategory::Community => {
                proof { reveal_strlit("Community"); }
                "Community"
            },
            MetricCategory::Activity => {
                proof { reveal_strlit("Activity"); }
                "Activity"
            },
            MetricCategory::Documentation => {
                proof { reveal_strlit("Documentation"); }
                "Documentation"
            },
            MetricCategory::Trustworthiness => {
                proof { reveal_strlit("Trustworthiness"); }
                "Trustworthiness"
            },
            MetricCategory::Codebase => {
                proof { reveal_strlit("Codebase"); }
                "Codebase"
            },
            MetricCategory::Advisories => {
                proof { reveal_strlit("Advisories"); }
                "Advisories"
            },
        }
    }

    /// All categories, in declaration order.
    pub fn all() -> (r: Vec<MetricCategory>)
        ensures
            r@.len() == 9,
            forall|i: int| 0 <= i < 9 ==> #[trigger] r@[i] == category_at(i),
    {
        vec![
            MetricCategory::Metadata,
            MetricCategory::Stability,
            MetricCategory::Usage,
            MetricCategory::Community,
            MetricCategory::Activity,
            MetricCategory::Documentation,
            MetricCategory::Trustworthiness,
            MetricCategory::Codebase,
            MetricCategory::Advisories,
        ]
    }
}

/// An instant that `chrono` can represent, in whole seconds since the epoch.
#[derive(Debug, Clone, Copy, PartialEq, Eq)]
pub struct Timestamp {
    secs: i64,
}

impl Timestamp {
    #[verifier::type_invariant]
    spec fn representable(&self) -> bool {
        chrono_timestamp_valid(self.secs)
    }

    /// The seconds since the epoch.
    pub closed spec fn seconds(&self) -> i64 {
        self.secs
    }

    /// The timestamp `secs` seconds after the epoch, when `chrono` can
    /// represent it.
    pub fn from_seconds(secs: i64) -> (r: Option<Timestamp>)
        ensures
            r is Some <==> chrono_timestamp_valid(secs),
            r matches Some(t) ==> t.seconds() == secs,
    {
        if crate::row_reader::timestamp_valid(secs) {
            Some(Timestamp { secs })
        } else {
            None
        }
    }

    /// The epoch, 1970-01-01T00:00:00Z.
    pub fn epoch() -> (r: Timestamp)
        ensures
            r.seconds() == 0,
    {
        let representable = crate::row_reader::timestamp_valid(0);
        assert(representable);
        Timestamp { secs: 0 }
    }

    /// The seconds since the epoch.
    pub fn as_seconds(&self) -> (r: i64)
        ensures
            r == self.seconds(),
            chrono_timestamp_valid(r),
    {
        proof { use_type_invariant(self); }
        self.secs
    }
}

/// A metric's value. Fractional values are handled outside the library.
#[derive(Debug)]
pub enum MetricValue {
    UInt(u64),
    Boolean(bool),
    String(String),
    DateTime(Timestamp),
    List(Vec<MetricValue>),
}

/// The kind of value a metric has.
#[derive(Debug, Clone, Copy, PartialEq, Eq, Structural)]
pub enum MetricKind {
    UInt,
    /// A fractional number.
    Fraction,
    Boolean,
    Text,
    Instant,
    List,
}

/// The default value of a metric: the zero of its kind.
#[derive(Debug)]
pub enum MetricDefault {
    /// A value the library holds.
    Value(MetricValue),
    /// The fractional zero, `0.0`.
    ZeroFraction,
}

/// The definition of a metric: its name, description, category and kind.
#[derive(Debug, Clone, Copy)]
pub struct MetricDef {
    pub name: &'static str,
    pub description: &'static str,
    pub category: MetricCategory,
    pub kind: MetricKind,
}

impl MetricDef {
    /// The value a metric has when nothing is known: zero, false, empty
    /// text, the epoch or the empty list, by kind.
    pub fn default_value(&self) -> (r: Option<MetricDefault>)
        ensures
            r matches Some(d) && match self.kind {
                MetricKind::UInt => d matches MetricDefault::Value(MetricValue::UInt(0)),
                MetricKind::Fraction => d is ZeroFraction,
                MetricKind::Boolean => d matches MetricDefault::Value(MetricValue::Boolean(false)),
                MetricKind::Text => d matches MetricDefault::Value(MetricValue::String(s)) && s@.len() == 0,
                MetricKind::Instant => d matches MetricDefault::Value(MetricValue::DateTime(t)) && t.seconds() == 0,
                MetricKind::List => d matches MetricDefault::Value(MetricValue::List(v)) && v@.len() == 0,
            },
    {
        Some(match self.kind {
            MetricKind::UInt => MetricDefault::Value(MetricValue::UInt(0)),
            MetricKind::Fraction => MetricDefault::ZeroFraction,
            MetricKind::Boolean => MetricDefault::Value(MetricValue::Boolean(false)),
            MetricKind::Text => MetricDefault::Value(MetricValue::String(String::new())),
            MetricKind::Instant => MetricDefault::Value(MetricValue::DateTime(Timestamp::epoch())),
            MetricKind::List => MetricDefault::Value(MetricValue::List(Vec::new())),
        })
    }
}

/// A metric of a crate: its definition and, when known, its value.
#[derive(Debug)]
pub struct Metric {
    pub def: MetricDef,
    pub value: Option<MetricValue>,
}

impl Metric {
    /// A metric with a known value.
    pub fn with_value(def: MetricDef, value: MetricValue) -> (r: Metric)
        ensures
            r.def == def,
            r.value == Some(value),
    {
        Metric { def, value: Some(value) }
    }

    /// The metric's name.
    pub fn name(&self) -> (r: &'static str)
        ensures
            r == self.def.name,
    {
        self.def.name
    }

    /// The metric's category.
    pub fn category(&self) -> (r: MetricCategory)
        ensures
            r == self.def.category,
    {
        self.def.category
    }
}

} // verus!
