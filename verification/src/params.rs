//! The registry of pluggable randomness tests: stable identifiers, enable
//! flags and bounded tunable parameters.
//!
//! The evaluation capability itself (a function from a bit block and a
//! parameter to a sequence of outcomes) is a collaborator outside this
//! library; the registry holds everything the pipeline decides with.

use vstd::prelude::*;

verus! {

/// Stable identifier of one pluggable test.
#[derive(Clone, Copy, PartialEq, Eq, Structural, Debug)]
pub enum TestId {
    Frequency,
    BlockFrequency,
    Runs,
    LongestRunOfOnes,
    Rank,
    Fft,
    NonOverlappingTemplate,
    OverlappingTemplate,
    Universal,
    LinearComplexity,
    Serial,
    ApproximateEntropy,
    CumulativeSums,
    RandomExcursions,
    RandomExcursionsVariant,
}

/// A bounded tunable integer parameter of a test.
#[derive(Clone, Copy, PartialEq, Eq, Structural, Debug)]
pub struct TestParam {
    /// Smallest accepted value.
    pub min_value: usize,
    /// Largest accepted value.
    pub max_value: usize,
    /// The value the test is invoked with.
    pub value: usize,
}

impl TestParam {
    /// The current value lies inside the declared bounds.
    pub open spec fn wf(&self) -> bool {
        self.min_value <= self.value <= self.max_value
    }
}

/// One entry of the test registry: an identified, optionally parameterized
/// test with an enable flag.
#[derive(Clone, PartialEq, Eq, Debug)]
pub struct NistWrapper {
    /// Which test this entry stands for.
    pub id: TestId,
    /// Display name, used in the report.
    pub name: String,
    /// Whether the pipeline invokes this test.
    pub enable: bool,
    /// The tunable parameter, for tests that take one.
    pub param: Option<TestParam>,
}

impl NistWrapper {
    /// The parameter, when present, lies inside its bounds.
    pub open spec fn wf(&self) -> bool {
        match self.param {
            Some(p) => p.wf(),
            None => true,
        }
    }
}

/// The identifier the default registry holds at each position.
pub open spec fn registry_id(i: int) -> TestId {
    if i == 0 {
        TestId::Frequency
    } else if i == 1 {
        TestId::BlockFrequency
    } else if i == 2 {
        TestId::Runs
    } else if i == 3 {
        TestId::LongestRunOfOnes
    } else if i == 4 {
        TestId::Rank
    } else if i == 5 {
        TestId::Fft
    } else if i == 6 {
        TestId::NonOverlappingTemplate
    } else if i == 7 {
        TestId::OverlappingTemplate
    } else if i == 8 {
        TestId::Universal
    } else if i == 9 {
        TestId::LinearComplexity
    } else if i == 10 {
        TestId::Serial
    } else if i == 11 {
        TestId::ApproximateEntropy
    } else if i == 12 {
        TestId::CumulativeSums
    } else if i == 13 {
        TestId::RandomExcursions
    } else {
        TestId::RandomExcursionsVariant
    }
}

/// The display name the default registry holds at each position.
pub open spec fn registry_name(i: int) -> Seq<char> {
    if i == 0 {
        "Frequency"@
    } else if i == 1 {
        "BlockFrequency"@
    } else if i == 2 {
        "Runs"@
    } else if i == 3 {
        "LongestRunOfOnes"@
    } else if i == 4 {
        "Rank"@
    } else if i == 5 {
        "FFT"@
    } else if i == 6 {
        "NonOverlappingTemplate"@
    } else if i == 7 {
        "Overlapping"@
    } else if i == 8 {
        "Universal"@
    } else if i == 9 {
        "LinearComplexity"@
    } else if i == 10 {
        "Serial"@
    } else if i == 11 {
        "ApproximateEntropy"@
    } else if i == 12 {
        "CumulativeSums"@
    } else if i == 13 {
        "RandomExcursions"@
    } else {
        "RandomExcursionsVariant"@
    }
}

/// The parameter bounds and default the registry holds at each position;
/// `None` for tests that take no parameter.
pub open spec fn registry_param(i: int) -> Option<TestParam> {
    if i == 1 {
        Some(TestParam { min_value: 10, max_value: 1000, value: 128 })
    } else if i == 6 {
        Some(TestParam { min_value: 2, max_value: 16, value: 9 })
    } else if i == 7 {
        Some(TestParam { min_value: 2, max_value: 1000, value: 9 })
    } else if i == 9 {
        Some(TestParam { min_value: 500, max_value: 1000, value: 500 })
    } else if i == 10 {
        Some(TestParam { min_value: 2, max_value: 128, value: 16 })
    } else if i == 11 {
        Some(TestParam { min_value: 2, max_value: 100, value: 10 })
    } else {
        None
    }
}

/// Number of tests in the registry.
pub const NUMBER_OF_TEST: usize = 15;

/// The editable registry of all tests, as the presentation collaborator
/// sees it: every test enabled, parameters at their defaults.
#[derive(Clone, PartialEq, Eq, Debug)]
pub struct ConfigureTests {
    /// The entries, in registry order.
    pub tests: Vec<NistWrapper>,
}

impl ConfigureTests {
    /// All entries keep their parameters inside the declared bounds.
    pub open spec fn wf(&self) -> bool {
        forall|i: int| 0 <= i < self.tests@.len() ==> (#[trigger] self.tests@[i]).wf()
    }

    /// The default registry: the full battery, in order, all enabled.
    pub fn new() -> (r: ConfigureTests)
        ensures
            r.wf(),
            r.tests@.len() == NUMBER_OF_TEST,
            forall|i: int|
                0 <= i < NUMBER_OF_TEST ==> (#[trigger] r.tests@[i]).id == registry_id(i),
            forall|i: int|
                0 <= i < NUMBER_OF_TEST ==> (#[trigger] r.tests@[i]).param == registry_param(i),
            forall|i: int| 0 <= i < NUMBER_OF_TEST ==> (#[trigger] r.tests@[i]).enable,
            forall|i: int|
                0 <= i < NUMBER_OF_TEST ==> (#[trigger] r.tests@[i]).name@ == registry_name(i),
    {
        let mut t: Vec<NistWrapper> = Vec::new();
        t.push(entry(TestId::Frequency, "Frequency", None));
        t.push(entry(TestId::BlockFrequency, "BlockFrequency", Some(TestParam {
            min_value: 10,
            max_value: 1000,
            value: 128,
        })));
        t.push(entry(TestId::Runs, "Runs", None));
        t.push(entry(TestId::LongestRunOfOnes, "LongestRunOfOnes", None));
        t.push(entry(TestId::Rank, "Rank", None));
        t.push(entry(TestId::Fft, "FFT", None));
        t.push(entry(TestId::NonOverlappingTemplate, "NonOverlappingTemplate", Some(TestParam {
            min_value: 2,
            max_value: 16,
            value: 9,
        })));
        t.push(entry(TestId::OverlappingTemplate, "Overlapping", Some(TestParam {
            min_value: 2,
            max_value: 1000,
            value: 9,
        })));
        t.push(entry(TestId::Universal, "Universal", None));
        t.push(entry(TestId::LinearComplexity, "LinearComplexity", Some(TestParam {
            min_value: 500,
            max_value: 1000,
            value: 500,
        })));
        t.push(entry(TestId::Serial, "Serial", Some(TestParam {
            min_value: 2,
            max_value: 128,
            value: 16,
        })));
        t.push(entry(TestId::ApproximateEntropy, "ApproximateEntropy", Some(TestParam {
            min_value: 2,
            max_value: 100,
            value: 10,
        })));
        t.push(entry(TestId::CumulativeSums, "CumulativeSums", None));
        t.push(entry(TestId::RandomExcursions, "RandomExcursions", None));
        t.push(entry(TestId::RandomExcursionsVariant, "RandomExcursionsVariant", None));
        ConfigureTests { tests: t }
    }

    /// Enable or disable one test.
    pub fn set_enable(&mut self, i: usize, v: bool)
        requires
            i < old(self).tests@.len(),
        ensures
            final(self).tests@.len() == old(self).tests@.len(),
            final(self).tests@[i as int].enable == v,
            final(self).tests@[i as int].id == old(self).tests@[i as int].id,
            final(self).tests@[i as int].name == old(self).tests@[i as int].name,
            final(self).tests@[i as int].param == old(self).tests@[i as int].param,
            forall|j: int|
                0 <= j < old(self).tests@.len() && j != i ==> final(self).tests@[j] == old(
                self,
                ).tests@[j],
            old(self).wf() ==> final(self).wf(),
    {
        let e = &mut self.tests[i];
        e.enable = v;
    }

    /// Set a test's parameter, clamped into its declared bounds; does
    /// nothing for a test without a parameter.
    pub fn set_param_value(&mut self, i: usize, v: usize)
        requires
            i < old(self).tests@.len(),
            old(self).wf(),
        ensures
            final(self).wf(),
            final(self).tests@.len() == old(self).tests@.len(),
            forall|j: int|
                0 <= j < old(self).tests@.len() && j != i ==> final(self).tests@[j] == old(
                self,
                ).tests@[j],
            final(self).tests@[i as int].id == old(self).tests@[i as int].id,
            final(self).tests@[i as int].name == old(self).tests@[i as int].name,
            final(self).tests@[i as int].enable == old(self).tests@[i as int].enable,
            match old(self).tests@[i as int].param {
                Some(p) => final(self).tests@[i as int].param == Some(
                    TestParam {
                        value: if v < p.min_value {
                            p.min_value
                        } else if v > p.max_value {
                            p.max_value
                        } else {
                            v
                        },
                        ..p
                    },
                ),
                None => final(self).tests@[i as int].param == old(self).tests@[i as int].param,
            },
    {
        let e = &mut self.tests[i];
        match &mut e.param {
            Some(p) => {
                let clamped = if v < p.min_value {
                    p.min_value
                } else if v > p.max_value {
                    p.max_value
                } else {
                    v
                };
                p.value = clamped;
            },
            None => {},
        }
    }
}

/// Build one registry entry.
fn entry(id: TestId, name: &str, param: Option<TestParam>) -> (r: NistWrapper)
    ensures
        r.id == id,
        r.name@ == name@,
        r.enable,
        r.param == param,
{
    NistWrapper { id, name: name.to_owned(), enable: true, param }
}

} // verus!
