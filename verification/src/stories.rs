use vstd::prelude::*;

verus! {

/// The kind of insight a story represents.
#[derive(Debug, Clone, Copy, PartialEq, Eq, Structural)]
pub enum StoryKind {
    HistoricalChange,
    WagesVsPrices,
    RentMortgageCrossover,
    ForecastDirection,
    SavingsTimeline,
}

/// The label shown on a story card for each kind.
pub open spec fn kind_label(k: StoryKind) -> Seq<char> {
    match k {
        StoryKind::HistoricalChange => "Historical"@,
        StoryKind::WagesVsPrices => "Wages vs Prices"@,
        StoryKind::RentMortgageCrossover => "Rent vs Mortgage"@,
        StoryKind::ForecastDirection => "Forecast"@,
        StoryKind::SavingsTimeline => "Savings"@,
    }
}

impl StoryKind {
    pub fn label(self) -> (s: &'static str)
        ensures
            s@ == kind_label(self),
    {
        match self {
            StoryKind::HistoricalChange => "Historical",
            StoryKind::WagesVsPrices => "Wages vs Prices",
            StoryKind::RentMortgageCrossover => "Rent vs Mortgage",
            StoryKind::ForecastDirection => "Forecast",
            StoryKind::SavingsTimeline => "Savings",
        }
    }
}

/// Severity level — maps to existing heat-1..heat-5 CSS classes.
#[derive(Debug, Clone, Copy, PartialEq, Eq, PartialOrd, Ord, Structural)]
pub enum Severity {
    Good,
    Moderate,
    Concerning,
    Bad,
    Critical,
}

/// Position of a severity from `Good` (0) to `Critical` (4), the order in
/// which the variants are declared.
pub open spec fn rank(s: Severity) -> int {
    match s {
        Severity::Good => 0,
        Severity::Moderate => 1,
        Severity::Concerning => 2,
        Severity::Bad => 3,
        Severity::Critical => 4,
    }
}

/// The CSS heat class of a severity: `heat-1` for `Good` up to `heat-5`
/// for `Critical`.
pub open spec fn heat_class(s: Severity) -> Seq<char> {
    seq!['h', 'e', 'a', 't', '-', ((rank(s) + 1) + 0x30) as char]
}

/// Map severity to CSS heat class.
pub fn severity_to_color(s: Severity) -> (c: &'static str)
    ensures
        c@ == heat_class(s),
{
    match s {
        Severity::Good => {
            proof {
                reveal_strlit("heat-1");
            }
            "heat-1"
        },
        Severity::Moderate => {
            proof {
                reveal_strlit("heat-2");
            }
            "heat-2"
        },
        Severity::Concerning => {
            proof {
                reveal_strlit("heat-3");
            }
            "heat-3"
        },
        Severity::Bad => {
            proof {
                reveal_strlit("heat-4");
            }
            "heat-4"
        },
        Severity::Critical => {
            proof {
                reveal_strlit("heat-5");
            }
            "heat-5"
        },
    }
}

/// Severities map to distinct heat classes, and a higher severity to a
/// hotter class.
pub proof fn lemma_heat_class_order(a: Severity, b: Severity)
    ensures
        heat_class(a) == heat_class(b) <==> a == b,
        rank(a) < rank(b) <==> (heat_class(a)[5] as u32) < (heat_class(b)[5] as u32),
{
    assert(((rank(a) + 1) + 0x30) as char as u32 == rank(a) + 1 + 0x30);
    assert(((rank(b) + 1) + 0x30) as char as u32 == rank(b) + 1 + 0x30);
    if heat_class(a) == heat_class(b) {
        assert(heat_class(a)[5] == heat_class(b)[5]);
    }
}

/// A derived story card.
#[derive(Debug, Clone)]
pub struct Story {
    pub kind: StoryKind,
    pub severity: Severity,
    pub headline: String,
    pub body: String,
    pub region: String,
    pub region_name: String,
    pub color_class: &'static str,
}

impl Story {
    /// A story card is coloured by its severity.
    pub open spec fn wf(&self) -> bool {
        self.color_class@ == heat_class(self.severity)
    }

    /// A story card for a region, coloured by its severity.
    pub fn new(
        kind: StoryKind,
        severity: Severity,
        headline: String,
        body: String,
        region: String,
        region_name: String,
    ) -> (s: Story)
        ensures
            s.wf(),
            s.kind == kind,
            s.severity == severity,
            s.headline == headline,
            s.body == body,
            s.region == region,
            s.region_name == region_name,
    {
        Story {
            kind,
            severity,
            headline,
            body,
            region,
            region_name,
            color_class: severity_to_color(severity),
        }
    }
}

} // verus!
