use render_graph_core::solari::{
    SolariPlugin, WgpuFeatures, BUFFER_BINDING_ARRAY, EXPERIMENTAL_RAY_QUERY,
    EXPERIMENTAL_RAY_TRACING_ACCELERATION_STRUCTURE, PARTIALLY_BOUND_BINDING_ARRAY,
    SAMPLED_TEXTURE_AND_STORAGE_BUFFER_ARRAY_NON_UNIFORM_INDEXING, TEXTURE_BINDING_ARRAY,
};

#[test]
fn required_features_are_the_six_raytracing_features() {
    let expected = EXPERIMENTAL_RAY_TRACING_ACCELERATION_STRUCTURE
        | EXPERIMENTAL_RAY_QUERY
        | BUFFER_BINDING_ARRAY
        | TEXTURE_BINDING_ARRAY
        | SAMPLED_TEXTURE_AND_STORAGE_BUFFER_ARRAY_NON_UNIFORM_INDEXING
        | PARTIALLY_BOUND_BINDING_ARRAY;
    assert_eq!(SolariPlugin::required_wgpu_features().bits, expected);
    assert_eq!(expected, 0x3f);
}

#[test]
fn gpu_with_every_feature_qualifies() {
    let all = WgpuFeatures::from_bits(0xff);
    assert!(SolariPlugin::has_required_features(all));
    assert_eq!(SolariPlugin::missing_features(all).bits, 0);
}

#[test]
fn gpu_without_ray_query_does_not_qualify() {
    let some = WgpuFeatures::from_bits(0x3f & !EXPERIMENTAL_RAY_QUERY);
    assert!(!SolariPlugin::has_required_features(some));
    assert_eq!(SolariPlugin::missing_features(some).bits, EXPERIMENTAL_RAY_QUERY);
}

#[test]
fn feature_set_operations() {
    let a = WgpuFeatures::from_bits(0b0110);
    let b = WgpuFeatures::from_bits(0b0011);
    assert_eq!(a.union(b).bits, 0b0111);
    assert_eq!(a.difference(b).bits, 0b0100);
    assert!(a.union(b).contains(a));
    assert!(!a.contains(b));
}
