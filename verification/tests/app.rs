use eren::eren_2d::app::AppConfig;
use eren::eren_3d::render_world::wgpu::asset_managers::model_asset_manager::is_supported_model_path;
use eren::eren_3d::render_world::wgpu::load_model::load_gltf_model::{
    expand_rgb_to_rgba, load_texture_image, ImageData, ImageFormat,
};
use eren::eren_core::app_handler::{AppHandlerConfig, AppLifecycle};
use eren::eren_core::render::wgpu::asset::{extension_start, WgpuAssetLoader, WgpuAssetManager};
use eren::eren_core::render::GraphicsLibrary;
use eren::eren_core::window::{
    action_for_window_event, WindowAction, WindowConfig, WindowEvent, WindowLifecycle,
};

fn s(x: &str) -> String {
    x.to_string()
}

#[test]
fn window_opens_once_per_resume() {
    let mut w = WindowLifecycle::new(WindowConfig { window_width: 1280, window_height: 720, window_title: s("T") });
    assert!(!w.new_events(true));
    assert!(w.resumed());
    assert!(!w.resumed());
    assert!(w.new_events(true));
    assert!(!w.new_events(false));
    w.suspended();
    assert!(!w.new_events(true));
    assert!(w.resumed());
    assert_eq!(w.config().window_width, 1280);
}

#[test]
fn app_handler_creates_surface_once() {
    let mut a = AppLifecycle::new(AppHandlerConfig { window_width: 1, window_height: 2, window_title: s("x") });
    let r = a.resumed();
    assert!(r.create_window && r.create_surface);
    let r = a.resumed();
    assert!(!r.create_window && !r.create_surface);
    a.suspended();
    assert!(!a.new_events(true));
    let r = a.resumed();
    assert!(r.create_window && r.create_surface);
    assert_eq!(a.config().window_title, "x");
}

#[test]
fn window_events_map_to_actions() {
    assert!(action_for_window_event(WindowEvent::Resized { width: 3, height: 4 }) == WindowAction::Resize { width: 3, height: 4 });
    assert!(action_for_window_event(WindowEvent::CloseRequested) == WindowAction::Exit);
    assert!(action_for_window_event(WindowEvent::RedrawRequested) == WindowAction::Update);
    assert!(action_for_window_event(WindowEvent::Other) == WindowAction::Nothing);
}

#[test]
fn app_config_gives_window_config() {
    let c = AppConfig { window_width: 1280, window_height: 720, window_title: s("Test Sprite"), graphics_library: GraphicsLibrary::Wgpu };
    let w = c.window_config();
    assert_eq!((w.window_width, w.window_height, w.window_title.as_str()), (1280, 720, "Test Sprite"));
}

#[test]
fn extension_starts_after_last_dot() {
    assert_eq!(extension_start(b"a/b.c.png"), 6);
    assert_eq!(extension_start(b"noext"), 0);
    assert_eq!(extension_start(b"trailing."), 9);
}

#[derive(Debug, Default, PartialEq)]
struct Recorder {
    name: &'static str,
    loaded: Vec<String>,
    surfaces: i32,
}

impl WgpuAssetLoader for Recorder {
    type Device = u32;
    type Queue = u32;

    fn load(&mut self, path: String) {
        self.loaded.push(path);
    }

    fn surface_created(&mut self, device: &u32, queue: &u32) {
        self.surfaces += (*device + *queue) as i32;
    }

    fn surface_destroyed(&mut self) {
        self.surfaces = 0;
    }
}

fn recorder(name: &'static str) -> Recorder {
    Recorder { name, ..Default::default() }
}

#[test]
fn assets_go_to_loader_of_their_extension_once() {
    let mut m = WgpuAssetManager::new();
    assert_eq!(m.add_loader(s("png"), recorder("first png")), 0);
    assert_eq!(m.add_loader(s("glb"), recorder("glb")), 1);
    assert_eq!(m.add_loader(s("png"), recorder("png")), 0);
    assert_eq!(m.loader(0).name, "png");
    let required = vec![s("a.png"), s("b.glb"), s("c.txt"), s("a.png"), s("dir.v2/d")];
    let requests = m.ensure_asset_loaded(&required);
    assert_eq!(requests, vec![(0, s("a.png")), (1, s("b.glb"))]);
    assert!(m.ensure_asset_loaded(&required).is_empty());
    assert_eq!(m.loader(0).loaded, vec![s("a.png")]);
    assert_eq!(m.loader(1).loaded, vec![s("b.glb")]);
    assert_eq!(m.find_loader(&s("x.y.png")), Some(0));
    assert_eq!(m.find_loader(&s("png")), Some(0));
    assert_eq!(m.find_loader(&s("x.PNG")), None);
}

#[test]
fn every_loader_hears_of_the_surface() {
    let mut m = WgpuAssetManager::new();
    m.add_loader(s("png"), recorder("png"));
    m.add_loader(s("glb"), recorder("glb"));
    m.surface_created(&2, &3);
    assert_eq!((m.loader(0).surfaces, m.loader(1).surfaces), (5, 5));
    m.surface_destroyed();
    assert_eq!((m.loader(0).surfaces, m.loader(1).surfaces), (0, 0));
}

#[test]
fn model_paths_need_gltf_or_glb() {
    assert!(is_supported_model_path(&s("character.glb")));
    assert!(is_supported_model_path(&s("scene.v1.gltf")));
    assert!(!is_supported_model_path(&s("model.obj")));
    assert!(!is_supported_model_path(&s("glb.obj")));
    assert!(is_supported_model_path(&s("glb")));
}

#[test]
fn rgb_pixels_gain_opaque_alpha() {
    assert_eq!(expand_rgb_to_rgba(&vec![1, 2, 3, 4, 5, 6, 7]), vec![1, 2, 3, 255, 4, 5, 6, 255]);
    assert!(expand_rgb_to_rgba(&vec![1, 2]).is_empty());
}

fn image(format: ImageFormat, width: u32, height: u32, pixels: Vec<u8>) -> ImageData {
    ImageData { pixels, format, width, height }
}

#[test]
fn texture_images_are_checked_against_their_size() {
    let images = vec![
        image(ImageFormat::R8G8B8A8, 1, 2, vec![9; 8]),
        image(ImageFormat::R8G8B8, 2, 1, vec![1, 2, 3, 4, 5, 6]),
        image(ImageFormat::R8G8B8A8, 2, 2, vec![0; 15]),
        image(ImageFormat::R16, 1, 1, vec![0; 8]),
        image(ImageFormat::R8G8B8, 2, 1, vec![1, 2, 3]),
    ];
    let rgba = load_texture_image(0, &images).unwrap();
    assert_eq!((rgba.width, rgba.height, rgba.data.clone()), (1, 2, vec![9; 8]));
    let rgb = load_texture_image(1, &images).unwrap();
    assert_eq!((rgb.width, rgb.height), (2, 1));
    assert_eq!(rgb.data, vec![1, 2, 3, 255, 4, 5, 6, 255]);
    assert!(load_texture_image(2, &images).is_none());
    assert!(load_texture_image(3, &images).is_none());
    assert!(load_texture_image(4, &images).is_none());
}

#[test]
fn png_loader_gets_each_png_path_once() {
    let mut m = WgpuAssetManager::new();
    m.add_loader(s("png"), recorder("png"));
    let required = vec![s("a.png"), s("b.jpg"), s("c.tar.png")];
    m.ensure_asset_loaded(&required);
    assert_eq!(m.loader(0).loaded, vec![s("a.png"), s("c.tar.png")]);
    m.ensure_asset_loaded(&required);
    assert_eq!(m.loader(0).loaded, vec![s("a.png"), s("c.tar.png")]);
}
