//! The call protocol of the C interface: protocol versions, session handles
//! and the routing of method names.

use vstd::prelude::*;
use crate::text::{chars_equal, chars_to_string, push_all, str_chars};

verus! {

/// Version of the call protocol.
pub const ABI_VERSION: u32 = 1;

/// Protocol version of the core library.
pub fn jpcg_abi_version() -> (r: u32)
    ensures
        r == ABI_VERSION,
{
    ABI_VERSION
}

/// Protocol version of the combo engine library.
pub fn jpcg_combo_abi_version() -> (r: u32)
    ensures
        r == ABI_VERSION,
{
    ABI_VERSION
}

/// Protocol version of the update library.
pub fn jpcg_update_abi_version() -> (r: u32)
    ensures
        r == ABI_VERSION,
{
    ABI_VERSION
}

/// Protocol version of the constants library.
pub fn jpcg_const_abi_version() -> (r: u32)
    ensures
        r == ABI_VERSION,
{
    ABI_VERSION
}

/// A session of the core library; the inputs of each call come with the
/// call, the session configuration is only kept.
#[derive(Debug)]
pub struct JpcgHandle {
    session_config: String,
}

impl JpcgHandle {
    pub closed spec fn config_spec(&self) -> Seq<char> {
        self.session_config@
    }

    /// A session with the given configuration text.
    pub fn new(session_config: String) -> (r: Self)
        ensures
            r.config_spec() == session_config@,
    {
        JpcgHandle { session_config }
    }

    /// The configuration text the session was made with.
    pub fn session_config(&self) -> (r: &str)
        ensures
            r@ == self.config_spec(),
    {
        self.session_config.as_str()
    }
}

/// A session of the combo engine library (see `JpcgHandle`).
#[derive(Debug)]
pub struct ComboHandle {
    session_config: String,
}

impl ComboHandle {
    pub closed spec fn config_spec(&self) -> Seq<char> {
        self.session_config@
    }

    /// A session with the given configuration text.
    pub fn new(session_config: String) -> (r: Self)
        ensures
            r.config_spec() == session_config@,
    {
        ComboHandle { session_config }
    }

    /// The configuration text the session was made with.
    pub fn session_config(&self) -> (r: &str)
        ensures
            r@ == self.config_spec(),
    {
        self.session_config.as_str()
    }
}

/// The methods of the core library.
#[derive(Debug, Clone, Copy, PartialEq, Eq, Structural)]
pub enum CoreMethod {
    Calculate,
    ComputeDerivatives,
    CalculateCombo,
    SaveComboPreset,
    ListComboPresets,
    LoadComboPreset,
    DeleteComboPreset,
    ExportConfig,
    ImportConfig,
    SaveConfig,
    LoadConfig,
    ListProfessions,
    LoadSkillData,
    SaveSkillData,
    LoadSkillPool,
    UpdateCheck,
    UpdatePerform,
    UpdateApp,
    UpdateModules,
}

/// The core method of a method name.
pub open spec fn core_method_of(name: Seq<char>) -> Option<CoreMethod> {
    if name == "calculate"@ {
        Some(CoreMethod::Calculate)
    } else if name == "compute_derivatives"@ {
        Some(CoreMethod::ComputeDerivatives)
    } else if name == "calculate_combo"@ {
        Some(CoreMethod::CalculateCombo)
    } else if name == "save_combo_preset"@ {
        Some(CoreMethod::SaveComboPreset)
    } else if name == "list_combo_presets"@ {
        Some(CoreMethod::ListComboPresets)
    } else if name == "load_combo_preset"@ {
        Some(CoreMethod::LoadComboPreset)
    } else if name == "delete_combo_preset"@ {
        Some(CoreMethod::DeleteComboPreset)
    } else if name == "export_config"@ {
        Some(CoreMethod::ExportConfig)
    } else if name == "import_config"@ {
        Some(CoreMethod::ImportConfig)
    } else if name == "save_config"@ {
        Some(CoreMethod::SaveConfig)
    } else if name == "load_config"@ {
        Some(CoreMethod::LoadConfig)
    } else if name == "list_professions"@ {
        Some(CoreMethod::ListProfessions)
    } else if name == "load_skill_data"@ {
        Some(CoreMethod::LoadSkillData)
    } else if name == "save_skill_data"@ {
        Some(CoreMethod::SaveSkillData)
    } else if name == "load_skill_pool"@ {
        Some(CoreMethod::LoadSkillPool)
    } else if name == "update_check"@ {
        Some(CoreMethod::UpdateCheck)
    } else if name == "update_perform"@ {
        Some(CoreMethod::UpdatePerform)
    } else if name == "update_app"@ {
        Some(CoreMethod::UpdateApp)
    } else if name == "update_modules"@ {
        Some(CoreMethod::UpdateModules)
    } else {
        None
    }
}

/// `未知方法: <name>`.
pub open spec fn unknown_method_message(name: Seq<char>) -> Seq<char> {
    seq!['未', '知', '方', '法', ':', ' '] + name
}

fn unknown_method(name: &str) -> (r: String)
    ensures
        r@ == unknown_method_message(name@),
{
    let mut m: Vec<char> = Vec::new();
    m.push('未');
    m.push('知');
    m.push('方');
    m.push('法');
    m.push(':');
    m.push(' ');
    push_all(&mut m, &str_chars(name));
    assert(m@ =~= unknown_method_message(name@));
    chars_to_string(&m)
}

fn is(name: &Vec<char>, lit: &str) -> (r: bool)
    ensures
        r == (name@ == lit@),
{
    chars_equal(name, &str_chars(lit))
}

/// Routes a method name of the core library; an unknown name is an error
/// that names it.
pub fn core_method(name: &str) -> (r: Result<CoreMethod, String>)
    ensures
        core_method_of(name@) matches Some(m) ==> r == Ok::<CoreMethod, String>(m),
        core_method_of(name@) is None ==> (r matches Err(e) && e@ == unknown_method_message(name@)),
{
    let n = str_chars(name);
    if is(&n, "calculate") {
        Ok(CoreMethod::Calculate)
    } else if is(&n, "compute_derivatives") {
        Ok(CoreMethod::ComputeDerivatives)
    } else if is(&n, "calculate_combo") {
        Ok(CoreMethod::CalculateCombo)
    } else if is(&n, "save_combo_preset") {
        Ok(CoreMethod::SaveComboPreset)
    } else if is(&n, "list_combo_presets") {
        Ok(CoreMethod::ListComboPresets)
    } else if is(&n, "load_combo_preset") {
        Ok(CoreMethod::LoadComboPreset)
    } else if is(&n, "delete_combo_preset") {
        Ok(CoreMethod::DeleteComboPreset)
    } else if is(&n, "export_config") {
        Ok(CoreMethod::ExportConfig)
    } else if is(&n, "import_config") {
        Ok(CoreMethod::ImportConfig)
    } else if is(&n, "save_config") {
        Ok(CoreMethod::SaveConfig)
    } else if is(&n, "load_config") {
        Ok(CoreMethod::LoadConfig)
    } else if is(&n, "list_professions") {
        Ok(CoreMethod::ListProfessions)
    } else if is(&n, "load_skill_data") {
        Ok(CoreMethod::LoadSkillData)
    } else if is(&n, "save_skill_data") {
        Ok(CoreMethod::SaveSkillData)
    } else if is(&n, "load_skill_pool") {
        Ok(CoreMethod::LoadSkillPool)
    } else if is(&n, "update_check") {
        Ok(CoreMethod::UpdateCheck)
    } else if is(&n, "update_perform") {
        Ok(CoreMethod::UpdatePerform)
    } else if is(&n, "update_app") {
        Ok(CoreMethod::UpdateApp)
    } else if is(&n, "update_modules") {
        Ok(CoreMethod::UpdateModules)
    } else {
        Err(unknown_method(name))
    }
}

/// The methods of the combo engine library.
#[derive(Debug, Clone, Copy, PartialEq, Eq, Structural)]
pub enum ComboMethod {
    CalculateCombo,
    SaveComboPreset,
    ListComboPresets,
    LoadComboPreset,
    DeleteComboPreset,
    ExportConfig,
    ImportConfig,
}

/// The combo engine method of a method name.
pub open spec fn combo_method_of(name: Seq<char>) -> Option<ComboMethod> {
    if name == "calculate_combo"@ {
        Some(ComboMethod::CalculateCombo)
    } else if name == "save_combo_preset"@ {
        Some(ComboMethod::SaveComboPreset)
    } else if name == "list_combo_presets"@ {
        Some(ComboMethod::ListComboPresets)
    } else if name == "load_combo_preset"@ {
        Some(ComboMethod::LoadComboPreset)
    } else if name == "delete_combo_preset"@ {
        Some(ComboMethod::DeleteComboPreset)
    } else if name == "export_config"@ {
        Some(ComboMethod::ExportConfig)
    } else if name == "import_config"@ {
        Some(ComboMethod::ImportConfig)
    } else {
        None
    }
}

/// Routes a method name of the combo engine library; an unknown name is an
/// error that names it.
pub fn combo_method(name: &str) -> (r: Result<ComboMethod, String>)
    ensures
        combo_method_of(name@) matches Some(m) ==> r == Ok::<ComboMethod, String>(m),
        combo_method_of(name@) is None ==> (r matches Err(e) && e@ == unknown_method_message(name@)),
{
    let n = str_chars(name);
    if is(&n, "calculate_combo") {
        Ok(ComboMethod::CalculateCombo)
    } else if is(&n, "save_combo_preset") {
        Ok(ComboMethod::SaveComboPreset)
    } else if is(&n, "list_combo_presets") {
        Ok(ComboMethod::ListComboPresets)
    } else if is(&n, "load_combo_preset") {
        Ok(ComboMethod::LoadComboPreset)
    } else if is(&n, "delete_combo_preset") {
        Ok(ComboMethod::DeleteComboPreset)
    } else if is(&n, "export_config") {
        Ok(ComboMethod::ExportConfig)
    } else if is(&n, "import_config") {
        Ok(ComboMethod::ImportConfig)
    } else {
        Err(unknown_method(name))
    }
}

/// The wire name of each core method.
pub open spec fn core_method_name(m: CoreMethod) -> Seq<char> {
    match m {
        CoreMethod::Calculate => "calculate"@,
        CoreMethod::ComputeDerivatives => "compute_derivatives"@,
        CoreMethod::CalculateCombo => "calculate_combo"@,
        CoreMethod::SaveComboPreset => "save_combo_preset"@,
        CoreMethod::ListComboPresets => "list_combo_presets"@,
        CoreMethod::LoadComboPreset => "load_combo_preset"@,
        CoreMethod::DeleteComboPreset => "delete_combo_preset"@,
        CoreMethod::ExportConfig => "export_config"@,
        CoreMethod::ImportConfig => "import_config"@,
        CoreMethod::SaveConfig => "save_config"@,
        CoreMethod::LoadConfig => "load_config"@,
        CoreMethod::ListProfessions => "list_professions"@,
        CoreMethod::LoadSkillData => "load_skill_data"@,
        CoreMethod::SaveSkillData => "save_skill_data"@,
        CoreMethod::LoadSkillPool => "load_skill_pool"@,
        CoreMethod::UpdateCheck => "update_check"@,
        CoreMethod::UpdatePerform => "update_perform"@,
        CoreMethod::UpdateApp => "update_app"@,
        CoreMethod::UpdateModules => "update_modules"@,
    }
}

/// The wire name of each combo engine method.
pub open spec fn combo_method_name(m: ComboMethod) -> Seq<char> {
    match m {
        ComboMethod::CalculateCombo => "calculate_combo"@,
        ComboMethod::SaveComboPreset => "save_combo_preset"@,
        ComboMethod::ListComboPresets => "list_combo_presets"@,
        ComboMethod::LoadComboPreset => "load_combo_preset"@,
        ComboMethod::DeleteComboPreset => "delete_combo_preset"@,
        ComboMethod::ExportConfig => "export_config"@,
        ComboMethod::ImportConfig => "import_config"@,
    }
}

/// The wire names of the methods differ from one another.
proof fn lemma_method_names_distinct()
    ensures
        "calculate"@ != "compute_derivatives"@,
        "calculate"@ != "calculate_combo"@,
        "calculate"@ != "save_combo_preset"@,
        "calculate"@ != "list_combo_presets"@,
        "calculate"@ != "load_combo_preset"@,
        "calculate"@ != "delete_combo_preset"@,
        "calculate"@ != "export_config"@,
        "calculate"@ != "import_config"@,
        "calculate"@ != "save_config"@,
        "calculate"@ != "load_config"@,
        "calculate"@ != "list_professions"@,
        "calculate"@ != "load_skill_data"@,
        "calculate"@ != "save_skill_data"@,
        "calculate"@ != "load_skill_pool"@,
        "calculate"@ != "update_check"@,
        "calculate"@ != "update_perform"@,
        "calculate"@ != "update_app"@,
        "calculate"@ != "update_modules"@,
        "compute_derivatives"@ != "calculate_combo"@,
        "compute_derivatives"@ != "save_combo_preset"@,
        "compute_derivatives"@ != "list_combo_presets"@,
        "compute_derivatives"@ != "load_combo_preset"@,
        "compute_derivatives"@ != "delete_combo_preset"@,
        "compute_derivatives"@ != "export_config"@,
        "compute_derivatives"@ != "import_config"@,
        "compute_derivatives"@ != "save_config"@,
        "compute_derivatives"@ != "load_config"@,
        "compute_derivatives"@ != "list_professions"@,
        "compute_derivatives"@ != "load_skill_data"@,
        "compute_derivatives"@ != "save_skill_data"@,
        "compute_derivatives"@ != "load_skill_pool"@,
        "compute_derivatives"@ != "update_check"@,
        "compute_derivatives"@ != "update_perform"@,
        "compute_derivatives"@ != "update_app"@,
        "compute_derivatives"@ != "update_modules"@,
        "calculate_combo"@ != "save_combo_preset"@,
        "calculate_combo"@ != "list_combo_presets"@,
        "calculate_combo"@ != "load_combo_preset"@,
        "calculate_combo"@ != "delete_combo_preset"@,
        "calculate_combo"@ != "export_config"@,
        "calculate_combo"@ != "import_config"@,
        "calculate_combo"@ != "save_config"@,
        "calculate_combo"@ != "load_config"@,
        "calculate_combo"@ != "list_professions"@,
        "calculate_combo"@ != "load_skill_data"@,
        "calculate_combo"@ != "save_skill_data"@,
        "calculate_combo"@ != "load_skill_pool"@,
        "calculate_combo"@ != "update_check"@,
        "calculate_combo"@ != "update_perform"@,
        "calculate_combo"@ != "update_app"@,
        "calculate_combo"@ != "update_modules"@,
        "save_combo_preset"@ != "list_combo_presets"@,
        "save_combo_preset"@ != "load_combo_preset"@,
        "save_combo_preset"@ != "delete_combo_preset"@,
        "save_combo_preset"@ != "export_config"@,
        "save_combo_preset"@ != "import_config"@,
        "save_combo_preset"@ != "save_config"@,
        "save_combo_preset"@ != "load_config"@,
        "save_combo_preset"@ != "list_professions"@,
        "save_combo_preset"@ != "load_skill_data"@,
        "save_combo_preset"@ != "save_skill_data"@,
        "save_combo_preset"@ != "load_skill_pool"@,
        "save_combo_preset"@ != "update_check"@,
        "save_combo_preset"@ != "update_perform"@,
        "save_combo_preset"@ != "update_app"@,
        "save_combo_preset"@ != "update_modules"@,
        "list_combo_presets"@ != "load_combo_preset"@,
        "list_combo_presets"@ != "delete_combo_preset"@,
        "list_combo_presets"@ != "export_config"@,
        "list_combo_presets"@ != "import_config"@,
        "list_combo_presets"@ != "save_config"@,
        "list_combo_presets"@ != "load_config"@,
        "list_combo_presets"@ != "list_professions"@,
        "list_combo_presets"@ != "load_skill_data"@,
        "list_combo_presets"@ != "save_skill_data"@,
        "list_combo_presets"@ != "load_skill_pool"@,
        "list_combo_presets"@ != "update_check"@,
        "list_combo_presets"@ != "update_perform"@,
        "list_combo_presets"@ != "update_app"@,
        "list_combo_presets"@ != "update_modules"@,
        "load_combo_preset"@ != "delete_combo_preset"@,
        "load_combo_preset"@ != "export_config"@,
        "load_combo_preset"@ != "import_config"@,
        "load_combo_preset"@ != "save_config"@,
        "load_combo_preset"@ != "load_config"@,
        "load_combo_preset"@ != "list_professions"@,
        "load_combo_preset"@ != "load_skill_data"@,
        "load_combo_preset"@ != "save_skill_data"@,
        "load_combo_preset"@ != "load_skill_pool"@,
        "load_combo_preset"@ != "update_check"@,
        "load_combo_preset"@ != "update_perform"@,
        "load_combo_preset"@ != "update_app"@,
        "load_combo_preset"@ != "update_modules"@,
        "delete_combo_preset"@ != "export_config"@,
        "delete_combo_preset"@ != "import_config"@,
        "delete_combo_preset"@ != "save_config"@,
        "delete_combo_preset"@ != "load_config"@,
        "delete_combo_preset"@ != "list_professions"@,
        "delete_combo_preset"@ != "load_skill_data"@,
        "delete_combo_preset"@ != "save_skill_data"@,
        "delete_combo_preset"@ != "load_skill_pool"@,
        "delete_combo_preset"@ != "update_check"@,
        "delete_combo_preset"@ != "update_perform"@,
        "delete_combo_preset"@ != "update_app"@,
        "delete_combo_preset"@ != "update_modules"@,
        "export_config"@ != "import_config"@,
        "export_config"@ != "save_config"@,
        "export_config"@ != "load_config"@,
        "export_config"@ != "list_professions"@,
        "export_config"@ != "load_skill_data"@,
        "export_config"@ != "save_skill_data"@,
        "export_config"@ != "load_skill_pool"@,
        "export_config"@ != "update_check"@,
        "export_config"@ != "update_perform"@,
        "export_config"@ != "update_app"@,
        "export_config"@ != "update_modules"@,
        "import_config"@ != "save_config"@,
        "import_config"@ != "load_config"@,
        "import_config"@ != "list_professions"@,
        "import_config"@ != "load_skill_data"@,
        "import_config"@ != "save_skill_data"@,
        "import_config"@ != "load_skill_pool"@,
        "import_config"@ != "update_check"@,
        "import_config"@ != "update_perform"@,
        "import_config"@ != "update_app"@,
        "import_config"@ != "update_modules"@,
        "save_config"@ != "load_config"@,
        "save_config"@ != "list_professions"@,
        "save_config"@ != "load_skill_data"@,
        "save_config"@ != "save_skill_data"@,
        "save_config"@ != "load_skill_pool"@,
        "save_config"@ != "update_check"@,
        "save_config"@ != "update_perform"@,
        "save_config"@ != "update_app"@,
        "save_config"@ != "update_modules"@,
        "load_config"@ != "list_professions"@,
        "load_config"@ != "load_skill_data"@,
        "load_config"@ != "save_skill_data"@,
        "load_config"@ != "load_skill_pool"@,
        "load_config"@ != "update_check"@,
        "load_config"@ != "update_perform"@,
        "load_config"@ != "update_app"@,
        "load_config"@ != "update_modules"@,
        "list_professions"@ != "load_skill_data"@,
        "list_professions"@ != "save_skill_data"@,
        "list_professions"@ != "load_skill_pool"@,
        "list_professions"@ != "update_check"@,
        "list_professions"@ != "update_perform"@,
        "list_professions"@ != "update_app"@,
        "list_professions"@ != "update_modules"@,
        "load_skill_data"@ != "save_skill_data"@,
        "load_skill_data"@ != "load_skill_pool"@,
        "load_skill_data"@ != "update_check"@,
        "load_skill_data"@ != "update_perform"@,
        "load_skill_data"@ != "update_app"@,
        "load_skill_data"@ != "update_modules"@,
        "save_skill_data"@ != "load_skill_pool"@,
        "save_skill_data"@ != "update_check"@,
        "save_skill_data"@ != "update_perform"@,
        "save_skill_data"@ != "update_app"@,
        "save_skill_data"@ != "update_modules"@,
        "load_skill_pool"@ != "update_check"@,
        "load_skill_pool"@ != "update_perform"@,
        "load_skill_pool"@ != "update_app"@,
        "load_skill_pool"@ != "update_modules"@,
        "update_check"@ != "update_perform"@,
        "update_check"@ != "update_app"@,
        "update_check"@ != "update_modules"@,
        "update_perform"@ != "update_app"@,
        "update_perform"@ != "update_modules"@,
        "update_app"@ != "update_modules"@,
{
    reveal_strlit("calculate");
    reveal_strlit("compute_derivatives");
    reveal_strlit("calculate_combo");
    reveal_strlit("save_combo_preset");
    reveal_strlit("list_combo_presets");
    reveal_strlit("load_combo_preset");
    reveal_strlit("delete_combo_preset");
    reveal_strlit("export_config");
    reveal_strlit("import_config");
    reveal_strlit("save_config");
    reveal_strlit("load_config");
    reveal_strlit("list_professions");
    reveal_strlit("load_skill_data");
    reveal_strlit("save_skill_data");
    reveal_strlit("load_skill_pool");
    reveal_strlit("update_check");
    reveal_strlit("update_perform");
    reveal_strlit("update_app");
    reveal_strlit("update_modules");
    assert("calculate"@.len() != "compute_derivatives"@.len());
    assert("calculate"@.len() != "calculate_combo"@.len());
    assert("calculate"@.len() != "save_combo_preset"@.len());
    assert("calculate"@.len() != "list_combo_presets"@.len());
    assert("calculate"@.len() != "load_combo_preset"@.len());
    assert("calculate"@.len() != "delete_combo_preset"@.len());
    assert("calculate"@.len() != "export_config"@.len());
    assert("calculate"@.len() != "import_config"@.len());
    assert("calculate"@.len() != "save_config"@.len());
    assert("calculate"@.len() != "load_config"@.len());
    assert("calculate"@.len() != "list_professions"@.len());
    assert("calculate"@.len() != "load_skill_data"@.len());
    assert("calculate"@.len() != "save_skill_data"@.len());
    assert("calculate"@.len() != "load_skill_pool"@.len());
    assert("calculate"@.len() != "update_check"@.len());
    assert("calculate"@.len() != "update_perform"@.len());
    assert("calculate"@.len() != "update_app"@.len());
    assert("calculate"@.len() != "update_modules"@.len());
    assert("compute_derivatives"@.len() != "calculate_combo"@.len());
    assert("compute_derivatives"@.len() != "save_combo_preset"@.len());
    assert("compute_derivatives"@.len() != "list_combo_presets"@.len());
    assert("compute_derivatives"@.len() != "load_combo_preset"@.len());
    assert("compute_derivatives"@[0] != "delete_combo_preset"@[0]);
    assert("compute_derivatives"@.len() != "export_config"@.len());
    assert("compute_derivatives"@.len() != "import_config"@.len());
    assert("compute_derivatives"@.len() != "save_config"@.len());
    assert("compute_derivatives"@.len() != "load_config"@.len());
    assert("compute_derivatives"@.len() != "list_professions"@.len());
    assert("compute_derivatives"@.len() != "load_skill_data"@.len());
    assert("compute_derivatives"@.len() != "save_skill_data"@.len());
    assert("compute_derivatives"@.len() != "load_skill_pool"@.len());
    assert("compute_derivatives"@.len() != "update_check"@.len());
    assert("compute_derivatives"@.len() != "update_perform"@.len());
    assert("compute_derivatives"@.len() != "update_app"@.len());
    assert("compute_derivatives"@.len() != "update_modules"@.len());
    assert("calculate_combo"@.len() != "save_combo_preset"@.len());
    assert("calculate_combo"@.len() != "list_combo_presets"@.len());
    assert("calculate_combo"@.len() != "load_combo_preset"@.len());
    assert("calculate_combo"@.len() != "delete_combo_preset"@.len());
    assert("calculate_combo"@.len() != "export_config"@.len());
    assert("calculate_combo"@.len() != "import_config"@.len());
    assert("calculate_combo"@.len() != "save_config"@.len());
    assert("calculate_combo"@.len() != "load_config"@.len());
    assert("calculate_combo"@.len() != "list_professions"@.len());
    assert("calculate_combo"@[0] != "load_skill_data"@[0]);
    assert("calculate_combo"@[0] != "save_skill_data"@[0]);
    assert("calculate_combo"@[0] != "load_skill_pool"@[0]);
    assert("calculate_combo"@.len() != "update_check"@.len());
    assert("calculate_combo"@.len() != "update_perform"@.len());
    assert("calculate_combo"@.len() != "update_app"@.len());
    assert("calculate_combo"@.len() != "update_modules"@.len());
    assert("save_combo_preset"@.len() != "list_combo_presets"@.len());
    assert("save_combo_preset"@[0] != "load_combo_preset"@[0]);
    assert("save_combo_preset"@.len() != "delete_combo_preset"@.len());
    assert("save_combo_preset"@.len() != "export_config"@.len());
    assert("save_combo_preset"@.len() != "import_config"@.len());
    assert("save_combo_preset"@.len() != "save_config"@.len());
    assert("save_combo_preset"@.len() != "load_config"@.len());
    assert("save_combo_preset"@.len() != "list_professions"@.len());
    assert("save_combo_preset"@.len() != "load_skill_data"@.len());
    assert("save_combo_preset"@.len() != "save_skill_data"@.len());
    assert("save_combo_preset"@.len() != "load_skill_pool"@.len());
    assert("save_combo_preset"@.len() != "update_check"@.len());
    assert("save_combo_preset"@.len() != "update_perform"@.len());
    assert("save_combo_preset"@.len() != "update_app"@.len());
    assert("save_combo_preset"@.len() != "update_modules"@.len());
    assert("list_combo_presets"@.len() != "load_combo_preset"@.len());
    assert("list_combo_presets"@.len() != "delete_combo_preset"@.len());
    assert("list_combo_presets"@.len() != "export_config"@.len());
    assert("list_combo_presets"@.len() != "import_config"@.len());
    assert("list_combo_presets"@.len() != "save_config"@.len());
    assert("list_combo_presets"@.len() != "load_config"@.len());
    assert("list_combo_presets"@.len() != "list_professions"@.len());
    assert("list_combo_presets"@.len() != "load_skill_data"@.len());
    assert("list_combo_presets"@.len() != "save_skill_data"@.len());
    assert("list_combo_presets"@.len() != "load_skill_pool"@.len());
    assert("list_combo_presets"@.len() != "update_check"@.len());
    assert("list_combo_presets"@.len() != "update_perform"@.len());
    assert("list_combo_presets"@.len() != "update_app"@.len());
    assert("list_combo_presets"@.len() != "update_modules"@.len());
    assert("load_combo_preset"@.len() != "delete_combo_preset"@.len());
    assert("load_combo_preset"@.len() != "export_config"@.len());
    assert("load_combo_preset"@.len() != "import_config"@.len());
    assert("load_combo_preset"@.len() != "save_config"@.len());
    assert("load_combo_preset"@.len() != "load_config"@.len());
    assert("load_combo_preset"@.len() != "list_professions"@.len());
    assert("load_combo_preset"@.len() != "load_skill_data"@.len());
    assert("load_combo_preset"@.len() != "save_skill_data"@.len());
    assert("load_combo_preset"@.len() != "load_skill_pool"@.len());
    assert("load_combo_preset"@.len() != "update_check"@.len());
    assert("load_combo_preset"@.len() != "update_perform"@.len());
    assert("load_combo_preset"@.len() != "update_app"@.len());
    assert("load_combo_preset"@.len() != "update_modules"@.len());
    assert("delete_combo_preset"@.len() != "export_config"@.len());
    assert("delete_combo_preset"@.len() != "import_config"@.len());
    assert("delete_combo_preset"@.len() != "save_config"@.len());
    assert("delete_combo_preset"@.len() != "load_config"@.len());
    assert("delete_combo_preset"@.len() != "list_professions"@.len());
    assert("delete_combo_preset"@.len() != "load_skill_data"@.len());
    assert("delete_combo_preset"@.len() != "save_skill_data"@.len());
    assert("delete_combo_preset"@.len() != "load_skill_pool"@.len());
    assert("delete_combo_preset"@.len() != "update_check"@.len());
    assert("delete_combo_preset"@.len() != "update_perform"@.len());
    assert("delete_combo_preset"@.len() != "update_app"@.len());
    assert("delete_combo_preset"@.len() != "update_modules"@.len());
    assert("export_config"@[0] != "import_config"@[0]);
    assert("export_config"@.len() != "save_config"@.len());
    assert("export_config"@.len() != "load_config"@.len());
    assert("export_config"@.len() != "list_professions"@.len());
    assert("export_config"@.len() != "load_skill_data"@.len());
    assert("export_config"@.len() != "save_skill_data"@.len());
    assert("export_config"@.len() != "load_skill_pool"@.len());
    assert("export_config"@.len() != "update_check"@.len());
    assert("export_config"@.len() != "update_perform"@.len());
    assert("export_config"@.len() != "update_app"@.len());
    assert("export_config"@.len() != "update_modules"@.len());
    assert("import_config"@.len() != "save_config"@.len());
    assert("import_config"@.len() != "load_config"@.len());
    assert("import_config"@.len() != "list_professions"@.len());
    assert("import_config"@.len() != "load_skill_data"@.len());
    assert("import_config"@.len() != "save_skill_data"@.len());
    assert("import_config"@.len() != "load_skill_pool"@.len());
    assert("import_config"@.len() != "update_check"@.len());
    assert("import_config"@.len() != "update_perform"@.len());
    assert("import_config"@.len() != "update_app"@.len());
    assert("import_config"@.len() != "update_modules"@.len());
    assert("save_config"@[0] != "load_config"@[0]);
    assert("save_config"@.len() != "list_professions"@.len());
    assert("save_config"@.len() != "load_skill_data"@.len());
    assert("save_config"@.len() != "save_skill_data"@.len());
    assert("save_config"@.len() != "load_skill_pool"@.len());
    assert("save_config"@.len() != "update_check"@.len());
    assert("save_config"@.len() != "update_perform"@.len());
    assert("save_config"@.len() != "update_app"@.len());
    assert("save_config"@.len() != "update_modules"@.len());
    assert("load_config"@.len() != "list_professions"@.len());
    assert("load_config"@.len() != "load_skill_data"@.len());
    assert("load_config"@.len() != "save_skill_data"@.len());
    assert("load_config"@.len() != "load_skill_pool"@.len());
    assert("load_config"@.len() != "update_check"@.len());
    assert("load_config"@.len() != "update_perform"@.len());
    assert("load_config"@.len() != "update_app"@.len());
    assert("load_config"@.len() != "update_modules"@.len());
    assert("list_professions"@.len() != "load_skill_data"@.len());
    assert("list_professions"@.len() != "save_skill_data"@.len());
    assert("list_professions"@.len() != "load_skill_pool"@.len());
    assert("list_professions"@.len() != "update_check"@.len());
    assert("list_professions"@.len() != "update_perform"@.len());
    assert("list_professions"@.len() != "update_app"@.len());
    assert("list_professions"@.len() != "update_modules"@.len());
    assert("load_skill_data"@[0] != "save_skill_data"@[0]);
    assert("load_skill_data"@[11] != "load_skill_pool"@[11]);
    assert("load_skill_data"@.len() != "update_check"@.len());
    assert("load_skill_data"@.len() != "update_perform"@.len());
    assert("load_skill_data"@.len() != "update_app"@.len());
    assert("load_skill_data"@.len() != "update_modules"@.len());
    assert("save_skill_data"@[0] != "load_skill_pool"@[0]);
    assert("save_skill_data"@.len() != "update_check"@.len());
    assert("save_skill_data"@.len() != "update_perform"@.len());
    assert("save_skill_data"@.len() != "update_app"@.len());
    assert("save_skill_data"@.len() != "update_modules"@.len());
    assert("load_skill_pool"@.len() != "update_check"@.len());
    assert("load_skill_pool"@.len() != "update_perform"@.len());
    assert("load_skill_pool"@.len() != "update_app"@.len());
    assert("load_skill_pool"@.len() != "update_modules"@.len());
    assert("update_check"@.len() != "update_perform"@.len());
    assert("update_check"@.len() != "update_app"@.len());
    assert("update_check"@.len() != "update_modules"@.len());
    assert("update_perform"@.len() != "update_app"@.len());
    assert("update_perform"@[7] != "update_modules"@[7]);
    assert("update_app"@.len() != "update_modules"@.len());
}

/// Each core method is reached by its own name and by no other: routing a
/// method's name gives that method, and a name that routes to a method is
/// that method's name.
pub proof fn lemma_core_method_names(m: CoreMethod, name: Seq<char>)
    ensures
        core_method_of(core_method_name(m)) == Some(m),
        core_method_of(name) == Some(m) ==> name == core_method_name(m),
{
    lemma_method_names_distinct();
}

/// Each combo engine method is reached by its own name and by no other, and
/// its name is the name of the core method of the same purpose.
pub proof fn lemma_combo_method_names(m: ComboMethod, name: Seq<char>)
    ensures
        combo_method_of(combo_method_name(m)) == Some(m),
        combo_method_of(name) == Some(m) ==> name == combo_method_name(m),
        core_method_of(combo_method_name(m)) is Some,
{
    lemma_method_names_distinct();
}

} // verus!
