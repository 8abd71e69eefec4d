pub mod load_gltf_model;
