//! Trusted boundary to the naga shader-compiler library. Parsing,
//! validation and MSL generation are naga's work; each item here either
//! declares one of naga's types, names the deterministic result of one of
//! its calls, or wraps one call and converts between naga's values and
//! this crate's plain types. A module and the validation analysis produced
//! for it travel together in one value, so no caller can cross a module
//! with a foreign analysis.

use vstd::prelude::*;

use crate::bindings::{
    AddressClass, EntryPointBindings, EntryPointBindingsModel, GlobalDesc, ModuleModel, ModuleView,
};

verus! {

#[verifier::external_type_specification]
#[verifier::external_body]
pub struct ExModule(naga::Module);

#[verifier::external_type_specification]
#[verifier::external_body]
pub struct ExModuleInfo(naga::valid::ModuleInfo);

#[verifier::external_type_specification]
#[verifier::external_body]
pub struct ExGlobalVariable(naga::GlobalVariable);

#[verifier::external_type_specification]
#[verifier::external_body]
pub struct ExMslOptions(naga::back::msl::Options);

/// Whether naga's WGSL front end parses this source text; parsing is a
/// function of the text alone.
pub uninterp spec fn wgsl_parses(source: Seq<char>) -> bool;

/// Whether naga's validator, with every flag and capability enabled,
/// accepts the module parsed from this source text; the verdict is a
/// function of the text alone.
pub uninterp spec fn wgsl_validates(source: Seq<char>) -> bool;

/// The globals, entry points and per-entry-point usage of the validated
/// module parsed from this source text, in declaration order; a function
/// of the text alone.
pub uninterp spec fn wgsl_module_model(source: Seq<char>) -> ModuleModel;

/// What naga's MSL backend returns for the validated module of this source
/// text under the translator's fixed generation options, with the given
/// per-entry-point resource maps recorded in the given order (a duplicate
/// entry-point name keeps the last): the generated text, or `None` when
/// generation fails. A function of its two arguments alone.
pub uninterp spec fn msl_output(
    source: Seq<char>,
    maps: Seq<EntryPointBindingsModel>,
) -> Option<Seq<u8>>;

/// A parsed module, tied by ghost to the source text it was parsed from.
pub struct ParsedModule {
    module: naga::Module,
    source: Ghost<Seq<char>>,
}

impl ParsedModule {
    /// The source text this module was parsed from.
    pub closed spec fn src(self) -> Seq<char> {
        self.source@
    }
}

/// A module together with the validation analysis naga produced for it,
/// tied by ghost to its source text. The two fields never part, so the
/// extraction and generation wrappers cannot be handed an analysis that
/// belongs to another module.
pub struct ValidatedModule {
    module: naga::Module,
    info: naga::valid::ModuleInfo,
    source: Ghost<Seq<char>>,
}

impl ValidatedModule {
    /// The source text this module was parsed from.
    pub closed spec fn src(self) -> Seq<char> {
        self.source@
    }
}

/// The generation options handed to the MSL backend: the fixed option set,
/// plus the per-entry-point resource maps recorded so far, modelled by
/// ghost in insertion order.
pub struct GenOptions {
    options: naga::back::msl::Options,
    inserted: Ghost<Seq<EntryPointBindingsModel>>,
}

impl GenOptions {
    /// The per-entry-point resource maps recorded so far, in insertion
    /// order.
    pub closed spec fn maps(self) -> Seq<EntryPointBindingsModel> {
        self.inserted@
    }
}

/// Relies on naga::front::wgsl::parse_str: parses WGSL source text into a
/// module, a function of the text alone; the error is formatted through
/// its Display impl.
#[verifier::external_body]
fn parse_raw(source: &str) -> (r: Result<naga::Module, String>)
    ensures
        r is Ok <==> wgsl_parses(source@),
{
    match naga::front::wgsl::parse_str(source) {
        Ok(module) => Ok(module),
        Err(e) => Err(format!("WGSL parse error: {}", e)),
    }
}

/// Parses WGSL source text, recording by ghost which text the module came
/// from.
pub(crate) fn parse_wgsl(source: &str) -> (r: Result<ParsedModule, String>)
    ensures
        r is Ok <==> wgsl_parses(source@),
        r is Ok ==> r.unwrap().src() == source@,
{
    match parse_raw(source) {
        Ok(module) => Ok(ParsedModule { module, source: Ghost(source@) }),
        Err(e) => Err(e),
    }
}

/// Relies on naga::valid::Validator::new and Validator::validate, with
/// every validation flag and every capability enabled; the verdict and the
/// analysis are a function of the module, hence of its source text. The
/// one validator is created here, so no differently configured one can
/// ever be used; the error is formatted through Display.
#[verifier::external_body]
fn validate_raw(pm: ParsedModule) -> (r: Result<(naga::Module, naga::valid::ModuleInfo), String>)
    ensures
        r is Ok <==> wgsl_validates(pm.src()),
{
    let ParsedModule { module, source: _ } = pm;
    let mut validator = naga::valid::Validator::new(
        naga::valid::ValidationFlags::all(),
        naga::valid::Capabilities::all(),
    );
    match validator.validate(&module) {
        Ok(info) => Ok((module, info)),
        Err(e) => Err(format!("Validation error: {}", e)),
    }
}

/// Validates a parsed module, keeping the module and the analysis naga
/// produced for it together in one value from here on.
pub(crate) fn validate_wgsl(pm: ParsedModule) -> (r: Result<ValidatedModule, String>)
    ensures
        r is Ok <==> wgsl_validates(pm.src()),
        r is Ok ==> r.unwrap().src() == pm.src(),
{
    let ghost src = pm.src();
    match validate_raw(pm) {
        Ok((module, info)) => Ok(ValidatedModule { module, info, source: Ghost(src) }),
        Err(e) => Err(e),
    }
}

/// Relies on naga's GlobalVariable::space field and
/// StorageAccess::contains: the address space of a module global, with the
/// store permission of a storage-space global.
#[verifier::external_body]
fn address_class_of(gv: &naga::GlobalVariable) -> AddressClass {
    match gv.space {
        naga::AddressSpace::Uniform => AddressClass::Uniform,
        naga::AddressSpace::Storage { access } => AddressClass::Storage {
            store: access.contains(naga::StorageAccess::STORE),
        },
        naga::AddressSpace::Handle => AddressClass::Handle,
        naga::AddressSpace::Function => AddressClass::Function,
        naga::AddressSpace::Private => AddressClass::Private,
        naga::AddressSpace::WorkGroup => AddressClass::WorkGroup,
        _ => AddressClass::Other,
    }
}

/// Relies on naga's GlobalVariable::binding field: the explicit (group,
/// binding) pair of a module global, if it has one.
#[verifier::external_body]
fn binding_of(gv: &naga::GlobalVariable) -> Option<crate::bindings::ResourceBinding> {
    match &gv.binding {
        Some(rb) => Some(
            crate::bindings::ResourceBinding { group: rb.group, binding: rb.binding },
        ),
        None => None,
    }
}

/// A module global as the binding policy reads it.
fn global_desc_of(gv: &naga::GlobalVariable) -> GlobalDesc {
    GlobalDesc { space: address_class_of(gv), binding: binding_of(gv) }
}

/// Relies on naga's Module::global_variables and Module::entry_points for
/// declaration order, ModuleInfo::get_entry_point for the per-entry-point
/// analysis of the matching module, and GlobalUse::is_empty for the usage
/// predicate (a global counts as used when any use flag is set). The
/// extraction is a function of the validated module, hence of its source
/// text, and the view is well-formed by construction: one usage row per
/// entry point, one flag per global.
#[verifier::external_body]
pub(crate) fn module_view(vm: &ValidatedModule) -> (r: ModuleView)
    ensures
        r.wf(),
        r.model() == wgsl_module_model(vm.src()),
{
    let module = &vm.module;
    let globals = module.global_variables.iter().map(|(_h, gv)| global_desc_of(gv)).collect();
    let entry_points = module.entry_points.iter().map(|ep| ep.name.clone()).collect();
    let mut used = Vec::new();
    for i in 0..module.entry_points.len() {
        let ep_info = vm.info.get_entry_point(i);
        used.push(module.global_variables.iter().map(|(h, _gv)| !ep_info[h].is_empty()).collect());
    }
    ModuleView { globals, entry_points, used }
}

/// Relies on naga::back::msl::Options::default, then fixes the generation
/// options this translator always uses: MSL 1.0, no fake bindings for
/// missing entries, zero-initialized workgroup memory, no loop-bound
/// injection. The per-entry-point map starts empty.
#[verifier::external_body]
fn msl_options_raw() -> naga::back::msl::Options {
    let mut options = naga::back::msl::Options::default();
    options.lang_version = (1, 0);
    options.fake_missing_bindings = false;
    options.zero_initialize_workgroup_memory = true;
    options.force_loop_bounding = false;
    options
}

/// The translator's fixed generation options, with no resource maps
/// recorded yet.
pub(crate) fn msl_options_base() -> (r: GenOptions)
    ensures
        r.maps() == Seq::<EntryPointBindingsModel>::empty(),
{
    GenOptions { options: msl_options_raw(), inserted: Ghost(Seq::empty()) }
}

/// Relies on naga::back::msl's BindTarget, BindingMap and
/// EntryPointResources: records one entry point's resource map in the
/// generation options, buffer slot and mutability from the given entries,
/// texture and sampler targets left unset (a duplicate entry-point name
/// keeps the last insertion).
#[verifier::external_body]
fn options_insert_raw(options: &mut naga::back::msl::Options, ep: &EntryPointBindings) {
    let mut resources = naga::back::msl::BindingMap::new();
    for e in ep.resources.iter() {
        let mut target = naga::back::msl::BindTarget::default();
        target.buffer = Some(e.target.buffer_slot);
        target.mutable = e.target.mutable;
        resources.insert(
            naga::ResourceBinding { group: e.key.group, binding: e.key.binding },
            target,
        );
    }
    let mut epr = naga::back::msl::EntryPointResources::default();
    epr.resources = resources;
    options.per_entry_point_map.insert(ep.entry_point.clone(), epr);
}

/// Records one entry point's resource map in the generation options; the
/// ghost model appends it in insertion order.
pub(crate) fn options_insert_entry_point(options: &mut GenOptions, ep: &EntryPointBindings)
    ensures
        final(options).maps() == old(options).maps().push(ep.model()),
{
    options_insert_raw(&mut options.options, ep);
    options.inserted = Ghost(options.inserted@.push(ep.model()));
}

/// Relies on naga::back::msl::write_string, on the module and the analysis
/// that was produced for it, and on PipelineOptions::default with the
/// fixed pipeline options (all entry points written together, no
/// point-size forcing, no vertex-pulling transform): the result is a
/// function of the validated module and the recorded maps alone; the error
/// is formatted through Debug, as it carries no source span.
#[verifier::external_body]
pub(crate) fn write_msl(vm: &ValidatedModule, options: &GenOptions) -> (r: Result<Vec<u8>, String>)
    ensures
        match r {
            Ok(text) => msl_output(vm.src(), options.maps()) == Some(text@),
            Err(_) => msl_output(vm.src(), options.maps()) is None,
        },
{
    let mut pipeline = naga::back::msl::PipelineOptions::default();
    pipeline.entry_point = None;
    pipeline.allow_and_force_point_size = false;
    pipeline.vertex_pulling_transform = false;
    match naga::back::msl::write_string(&vm.module, &vm.info, &options.options, &pipeline) {
        Ok((text, _)) => Ok(text.into_bytes()),
        Err(e) => Err(format!("MSL generation error: {:?}", e)),
    }
}

} // verus!
