//! The classification of a module, fixed when it is created.

use crate::text::text_equals;
use vstd::prelude::*;

verus! {

/// The closed set of module classes that the engine knows.
#[derive(Clone, Copy, Debug, PartialEq, Eq, Structural)]
pub enum ModuleKind {
    EnergyGenerator,
    EnergyStorage,
    EnergyConsumer,
    AdvancedEnergyGenerator,
    AdvancedEnergyStorage,
    HighPowerConsumer,
    Processor,
    AdvancedProcessor,
    Display,
    Storage,
    AdvancedStorage,
    TestModule,
    Other,
}

/// The class that a type identifier names; identifiers that name none are `Other`.
pub open spec fn kind_of(type_id: Seq<char>) -> ModuleKind {
    if type_id == "energy_generator"@ || type_id == "basic_energy_generator"@ {
        ModuleKind::EnergyGenerator
    } else if type_id == "energy_storage"@ || type_id == "basic_energy_storage"@ {
        ModuleKind::EnergyStorage
    } else if type_id == "energy_consumer"@ || type_id == "basic_energy_consumer"@ {
        ModuleKind::EnergyConsumer
    } else if type_id == "advanced_energy_generator"@ {
        ModuleKind::AdvancedEnergyGenerator
    } else if type_id == "advanced_energy_storage"@ {
        ModuleKind::AdvancedEnergyStorage
    } else if type_id == "high_power_consumer"@ {
        ModuleKind::HighPowerConsumer
    } else if type_id == "processor"@ {
        ModuleKind::Processor
    } else if type_id == "advanced_processor"@ {
        ModuleKind::AdvancedProcessor
    } else if type_id == "display"@ {
        ModuleKind::Display
    } else if type_id == "storage"@ {
        ModuleKind::Storage
    } else if type_id == "advanced_storage"@ {
        ModuleKind::AdvancedStorage
    } else if type_id == "test_module"@ {
        ModuleKind::TestModule
    } else {
        ModuleKind::Other
    }
}

/// The part that the lifecycle pass gives a module, by its type identifier.
#[derive(Clone, Copy, Debug, PartialEq, Eq, Structural)]
pub enum LifecycleRole {
    Generator,
    Storage,
    Consumer,
    Plain,
}

/// The part that the lifecycle pass gives a module of this type identifier.
pub open spec fn role_of(type_id: Seq<char>) -> LifecycleRole {
    if type_id == "test_module"@ {
        LifecycleRole::Generator
    } else if type_id == "energy_storage"@ {
        LifecycleRole::Storage
    } else if type_id == "energy_consumer"@ {
        LifecycleRole::Consumer
    } else {
        LifecycleRole::Plain
    }
}

/// The type identifier that a module was created with.
#[derive(Clone, Debug)]
pub struct ModuleType {
    pub type_id: String,
}

impl ModuleType {
    pub fn new(type_id: String) -> (t: Self)
        ensures
            t.type_id == type_id,
    {
        ModuleType { type_id }
    }

    /// The class named by the identifier.
    pub fn kind(&self) -> (k: ModuleKind)
        ensures
            k == kind_of(self.type_id@),
    {
        let id: &str = self.type_id.as_str();
        if text_equals(id, "energy_generator") || text_equals(id, "basic_energy_generator") {
            ModuleKind::EnergyGenerator
        } else if text_equals(id, "energy_storage") || text_equals(id, "basic_energy_storage") {
            ModuleKind::EnergyStorage
        } else if text_equals(id, "energy_consumer") || text_equals(id, "basic_energy_consumer") {
            ModuleKind::EnergyConsumer
        } else if text_equals(id, "advanced_energy_generator") {
            ModuleKind::AdvancedEnergyGenerator
        } else if text_equals(id, "advanced_energy_storage") {
            ModuleKind::AdvancedEnergyStorage
        } else if text_equals(id, "high_power_consumer") {
            ModuleKind::HighPowerConsumer
        } else if text_equals(id, "processor") {
            ModuleKind::Processor
        } else if text_equals(id, "advanced_processor") {
            ModuleKind::AdvancedProcessor
        } else if text_equals(id, "display") {
            ModuleKind::Display
        } else if text_equals(id, "storage") {
            ModuleKind::Storage
        } else if text_equals(id, "advanced_storage") {
            ModuleKind::AdvancedStorage
        } else if text_equals(id, "test_module") {
            ModuleKind::TestModule
        } else {
            ModuleKind::Other
        }
    }

    /// The part that the lifecycle pass gives a module of this type.
    pub fn lifecycle_role(&self) -> (r: LifecycleRole)
        ensures
            r == role_of(self.type_id@),
    {
        let id: &str = self.type_id.as_str();
        if text_equals(id, "test_module") {
            LifecycleRole::Generator
        } else if text_equals(id, "energy_storage") {
            LifecycleRole::Storage
        } else if text_equals(id, "energy_consumer") {
            LifecycleRole::Consumer
        } else {
            LifecycleRole::Plain
        }
    }

    /// Whether the identifier is one of the three plain energy classes.
    pub fn is_energy_module(&self) -> (r: bool)
        ensures
            r == (self.type_id@ == "energy_generator"@ || self.type_id@ == "energy_storage"@
                || self.type_id@ == "energy_consumer"@),
    {
        let id: &str = self.type_id.as_str();
        text_equals(id, "energy_generator") || text_equals(id, "energy_storage") || text_equals(
            id,
            "energy_consumer",
        )
    }

    /// Whether the identifier names the plain processor.
    pub fn is_processing_module(&self) -> (r: bool)
        ensures
            r == (self.type_id@ == "processor"@),
    {
        text_equals(self.type_id.as_str(), "processor")
    }

    /// Whether the identifier names the display.
    pub fn is_display_module(&self) -> (r: bool)
        ensures
            r == (self.type_id@ == "display"@),
    {
        text_equals(self.type_id.as_str(), "display")
    }
}

} // verus!
