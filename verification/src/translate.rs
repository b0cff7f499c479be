//! Translation driver: parse, validate, build the binding maps, generate,
//! classify the target entry-point name, and rename. Every stage failure
//! aborts the run with that stage's error; the caller writes output only
//! on success.

use vstd::prelude::*;
use vstd::string::*;

use crate::TranslateError;
use crate::bindings::{
    build_binding_maps, emits, maps_model, model_in_range, out_of_range_witness, row_in_range,
    EntryPointBindings,
};
use crate::classify::{classify_spec, determine_entrypoint_name};
use crate::naga_api::{
    module_view, msl_options_base, msl_output, options_insert_entry_point, parse_wgsl,
    validate_wgsl, wgsl_module_model, wgsl_parses, wgsl_validates, write_msl,
};
use crate::rename::{rename_entrypoint, rename_spec};

verus! {

/// The default entry-point name the generator emits, and that renaming
/// replaces.
pub open spec fn default_entry_name() -> Seq<u8> {
    "main_".spec_bytes()
}

/// See [`default_entry_name`].
pub fn default_entry_name_bytes() -> (r: Vec<u8>)
    ensures
        r@ == default_entry_name(),
{
    "main_".as_bytes_vec()
}

/// What the driver makes of the generated text: when the file stem
/// classifies to a target name, the entry-point declarations of the
/// default name are renamed to it; otherwise the text passes through
/// unchanged.
pub open spec fn renamed_output(generated: Seq<u8>, classified: Option<Seq<u8>>) -> Seq<u8> {
    match classified {
        Some(name) => rename_spec(generated, default_entry_name(), name),
        None => generated,
    }
}

/// The whole pipeline succeeds on this source exactly when it parses,
/// validates, every emitted binding index is representable, and the
/// backend generates text for the resulting binding maps.
pub open spec fn translation_succeeds(source: Seq<char>) -> bool {
    &&& wgsl_parses(source)
    &&& wgsl_validates(source)
    &&& model_in_range(wgsl_module_model(source))
    &&& msl_output(source, maps_model(wgsl_module_model(source))) is Some
}

/// Translates WGSL source text into MSL. Parsing, validation and code
/// generation are the backend library's; the per-entry-point binding maps
/// and the rename policy are this crate's. Success comes exactly when
/// every stage succeeds, the result is then the generated text with the
/// rename policy for `file_stem` applied, and a failure carries the first
/// failing stage's error.
pub fn convert_wgsl_to_msl(source: &str, file_stem: &[u8]) -> (r: Result<Vec<u8>, TranslateError>)
    ensures
        r is Ok <==> translation_succeeds(source@),
        r is Ok ==> r.unwrap()@ == renamed_output(
            msl_output(source@, maps_model(wgsl_module_model(source@))).unwrap(),
            classify_spec(file_stem@),
        ),
        match r {
            Ok(_) => true,
            Err(e) => match e {
                TranslateError::Parse(_) => !wgsl_parses(source@),
                TranslateError::Validation(_) => wgsl_parses(source@) && !wgsl_validates(source@),
                TranslateError::BindingRange { .. } => {
                    &&& wgsl_parses(source@)
                    &&& wgsl_validates(source@)
                    &&& exists|i: int, j: int| #[trigger] out_of_range_witness(
                        wgsl_module_model(source@),
                        i,
                        j,
                        e,
                    )
                },
                TranslateError::Generation(_) => {
                    &&& wgsl_parses(source@)
                    &&& wgsl_validates(source@)
                    &&& model_in_range(wgsl_module_model(source@))
                    &&& msl_output(source@, maps_model(wgsl_module_model(source@))) is None
                },
            },
        },
{
    let pm = match parse_wgsl(source) {
        Ok(m) => m,
        Err(e) => { return Err(TranslateError::Parse(e)) },
    };
    let vm = match validate_wgsl(pm) {
        Ok(x) => x,
        Err(e) => { return Err(TranslateError::Validation(e)) },
    };
    let view = module_view(&vm);
    let ghost model = wgsl_module_model(source@);
    proof {
        assert(view.model() == model);
        assert(model.globals == view.globals@);
        assert forall|i: int| 0 <= i < view.used@.len() implies #[trigger] model.used[i]
            == view.used@[i]@ by {}
        assert forall|i: int| 0 <= i < view.entry_points@.len() implies #[trigger] model.entry_points[i]
            == view.entry_points@[i]@ by {}
    }
    let maps = match build_binding_maps(&view) {
        Ok(m) => m,
        Err(e) => {
            proof {
                let (i, j): (int, int) = choose|i: int, j: int|
                    {
                        &&& 0 <= i < view.used@.len()
                        &&& 0 <= j < view.globals@.len()
                        &&& #[trigger] emits(view.globals@[j], view.used@[i]@[j])
                        &&& view.globals@[j].binding.unwrap().binding > 255
                        &&& e == (TranslateError::BindingRange {
                            group: view.globals@[j].binding.unwrap().group,
                            binding: view.globals@[j].binding.unwrap().binding,
                        })
                    };
                assert(out_of_range_witness(model, i, j, e));
                assert(!row_in_range(model.globals, model.used[i]));
                assert(!model_in_range(model));
            }
            return Err(e);
        },
    };
    proof {
        assert forall|i: int| 0 <= i < model.used.len() implies row_in_range(
            model.globals,
            #[trigger] model.used[i],
        ) by {
            assert(row_in_range(view.globals@, view.used@[i]@));
        }
        assert(model_in_range(model));
        assert(maps.model() =~= maps_model(model)) by {
            assert(maps.model().len() == maps_model(model).len());
            assert forall|i: int| 0 <= i < maps.model().len() implies maps.model()[i] == maps_model(
                model,
            )[i] by {
                assert(maps.entries@[i].entry_point@ == view.entry_points@[i]@);
                assert(maps.entries@[i].resources@ == crate::bindings::entry_resources(
                    view.globals@,
                    view.used@[i]@,
                ));
            }
        }
    }
    let mut options = msl_options_base();
    let ep_count: usize = maps.entries.len();
    let mut i: usize = 0;
    proof {
        assert(maps.entries@.take(0).map_values(|b: EntryPointBindings| b.model())
            =~= Seq::<crate::bindings::EntryPointBindingsModel>::empty());
    }
    while i < ep_count
        invariant
            i <= ep_count,
            ep_count == maps.entries@.len(),
            options.maps() == maps.entries@.take(i as int).map_values(
                |b: EntryPointBindings| b.model(),
            ),
        decreases ep_count - i,
    {
        options_insert_entry_point(&mut options, &maps.entries[i]);
        proof {
            assert(maps.entries@.take(i + 1) =~= maps.entries@.take(i as int).push(
                maps.entries@[i as int],
            ));
            assert(maps.entries@.take(i + 1).map_values(|b: EntryPointBindings| b.model())
                =~= maps.entries@.take(i as int).map_values(|b: EntryPointBindings| b.model()).push(
                maps.entries@[i as int].model(),
            ));
        }
        i += 1;
    }
    proof {
        assert(maps.entries@.take(ep_count as int) =~= maps.entries@);
        assert(options.maps() == maps.model());
        assert(options.maps() == maps_model(model));
    }
    let generated = match write_msl(&vm, &options) {
        Ok(text) => text,
        Err(e) => { return Err(TranslateError::Generation(e)) },
    };
    match determine_entrypoint_name(file_stem) {
        Some(name) => {
            let old_name = default_entry_name_bytes();
            let out = rename_entrypoint(generated.as_slice(), old_name.as_slice(), name.as_slice());
            proof {
                assert(out@ == renamed_output(generated@, classify_spec(file_stem@)));
            }
            Ok(out)
        },
        None => {
            proof {
                assert(generated@ == renamed_output(generated@, classify_spec(file_stem@)));
            }
            Ok(generated)
        },
    }
}

} // verus!

