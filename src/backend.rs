//! The EGL backend, reached through glutin: configuration templates and the
//! choice among the configurations a display offers.

use vstd::prelude::*;
use glutin::config::{ColorBufferType, Config, ConfigSurfaceTypes, ConfigTemplate, ConfigTemplateBuilder, GlConfig};
use crate::error::RenderError;
use crate::format::{config_request, select_config, template_for, ConfigRequest, PixelFormat};

verus! {

#[verifier::external_type_specification]
#[verifier::external_body]
pub struct ExConfig(Config);

#[verifier::external_type_specification]
#[verifier::external_body]
pub struct ExConfigTemplate(ConfigTemplate);

/// The template glutin's builder makes for a request.
pub uninterp spec fn template_of(req: ConfigRequest) -> ConfigTemplate;

/// Relies on glutin's `ConfigTemplateBuilder`: each setter stores its value in
/// the template it builds, so the template asks for a window surface with
/// exactly the request's channel, depth and stencil sizes and pixel kind, and
/// depends on the request alone.
#[verifier::external_body]
fn template_from_request(req: &ConfigRequest) -> (t: ConfigTemplate)
    ensures
        t == template_of(*req),
{
    ConfigTemplateBuilder::new()
        .with_surface_type(ConfigSurfaceTypes::WINDOW)
        .with_buffer_type(ColorBufferType::Rgb { r_size: req.red, g_size: req.green, b_size: req.blue })
        .with_alpha_size(req.alpha)
        .with_depth_size(req.depth)
        .with_stencil_size(req.stencil)
        .with_float_pixels(req.float_pixels)
        .build()
}

/// Relies on glutin's `GlConfig::num_samples`: the configuration's multisample count.
#[verifier::external_body]
fn num_samples(config: &Config) -> (n: u8) {
    config.num_samples()
}

/// The configuration template for a window of the given format, or
/// `UnsupportedFormat` where the format has none.
pub fn config_template(format: PixelFormat) -> (r: Result<ConfigTemplate, RenderError>)
    ensures
        r is Err <==> template_for(format) is None,
        r is Err ==> r == Err::<ConfigTemplate, RenderError>(RenderError::UnsupportedFormat),
        r is Ok ==> r->Ok_0 == template_of(template_for(format)->Some_0),
{
    match config_request(format) {
        Ok(req) => Ok(template_from_request(&req)),
        Err(e) => Err(e),
    }
}

/// Chooses, of the configurations the display enumerated for a template, the
/// first one with the most samples; `NoMatchingConfiguration` when there is none.
pub fn choose_config(configs: Vec<Config>) -> (r: Result<Config, RenderError>)
    ensures
        configs@.len() == 0 <==> r is Err,
        match r {
            Ok(c) => configs@.contains(c),
            Err(e) => e == RenderError::NoMatchingConfiguration,
        },
{
    let mut samples: Vec<u8> = Vec::new();
    let mut i: usize = 0;
    while i < configs.len()
        invariant
            0 <= i <= configs@.len(),
            samples@.len() == i,
        decreases configs@.len() - i,
    {
        samples.push(num_samples(&configs[i]));
        i = i + 1;
    }
    let ghost all = configs@;
    let r = select_config(configs, &samples);
    proof {
        if r is Ok {
            let k = choose|k: int| crate::format::is_first_max(samples@, k) && r->Ok_0 == all[k];
            assert(all.contains(r->Ok_0));
        }
    }
    r
}

} // verus!
