use vstd::prelude::*;
use vstd::string::StringSliceAdditionalSpecFns;

pub mod bytes;
pub mod configs;
pub mod error;
pub mod info;
pub mod memory;
pub mod num;
pub mod osrelease;
pub mod packages;
pub mod render;
pub mod snapshot;
pub mod terminal;
pub mod theme;

verus! {

/// The template used when no user template file exists.
pub fn default_template() -> (r: Vec<u8>)
    ensures
        r@ == "\n-> {{cyan}}{{username}}@{{hostname}}{{reset}}\n{{green}}====================================={{reset}}\n{{red}}{{bold}}OS{{reset}}: {{os_name}} ({{os_id}}){{os_version}}\n{{red}}{{bold}}Kernel{{reset}}: {{kernel}} {{kernel_version}}\n{{red}}{{bold}}Memory{{reset}}: {{used_memory}}/{{total_memory}} GiB ({{memory_usage_percent}}%)\n".spec_bytes(),
{
    crate::bytes::lit(
        "\n-> {{cyan}}{{username}}@{{hostname}}{{reset}}\n{{green}}====================================={{reset}}\n{{red}}{{bold}}OS{{reset}}: {{os_name}} ({{os_id}}){{os_version}}\n{{red}}{{bold}}Kernel{{reset}}: {{kernel}} {{kernel_version}}\n{{red}}{{bold}}Memory{{reset}}: {{used_memory}}/{{total_memory}} GiB ({{memory_usage_percent}}%)\n",
    )
}

/// There is nothing to display on this platform.
pub fn display_windows() {
}

} // verus!
