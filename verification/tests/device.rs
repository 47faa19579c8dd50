use handwriting::engine::{
    Layer, PaperEngine, PaperParams, RenderError as PaperError, Resource,
};
use handwriting::gpu::{
    AddressMode, AlphaMode, Backends, BindingKind, BufferRole, Compare, DeviceLimits, FilterMode,
    FormatWish, FrameAction, FrameEvent, PresentMode, TextureFormat, Topology,
};
use handwriting::ink::build_ink_mesh;
use handwriting::number::{double, single};
use handwriting::physics::StrokePoint;
use handwriting::render::{
    upload_paper_textures, BlendFactor, BufferPool, FrameEncoder, FrameUniforms, InkPipeline,
    InkUniforms, RenderConfig, RenderError, RenderSurface, VulkanContext,
};
use handwriting::unit::{FloatUnit, Op};
use handwriting::xtask::{
    after_build, bench_args, bench_failure, build_args, target, task, BuildStep, Task, TARGETS,
};

const OTHER_PLAIN: TextureFormat = TextureFormat::Other { place: 0, srgb: false };
const OTHER_CURVED: TextureFormat = TextureFormat::Other { place: 1, srgb: true };

#[test]
fn the_renderer_likes_the_srgb_curve() {
    let config = RenderConfig::default();
    assert_eq!(config.surface_format, TextureFormat::Rgba8UnormSrgb);
    assert_eq!(config.physical_size, (1080, 2400));
    assert_eq!(f32::from_bits(config.scale_factor.bits), 2.0);
    assert!(config.vsync);

    let formats = [TextureFormat::Rgba8Unorm, OTHER_CURVED, TextureFormat::Rgba8UnormSrgb];
    let surface = RenderSurface::new(&formats, &config);
    assert_eq!(surface.config.format, OTHER_CURVED);
    assert_eq!((surface.config.width, surface.config.height), (1080, 2400));
    assert_eq!(surface.config.present_mode, PresentMode::AutoVsync);
    assert_eq!(surface.config.alpha_mode, AlphaMode::First);
    assert_eq!(surface.config.max_frame_latency, 2);

    let hurried = RenderConfig { vsync: false, ..config };
    let surface = RenderSurface::new(&[OTHER_PLAIN, TextureFormat::Rgba8Unorm], &hurried);
    assert_eq!(surface.config.format, OTHER_PLAIN);
    assert_eq!(surface.config.present_mode, PresentMode::AutoNoVsync);
    assert_eq!(FormatWish::Curved.choose_format(&formats), OTHER_CURVED);
}

#[test]
fn the_depth_follows_a_new_size() {
    let mut surface = RenderSurface::new(&[OTHER_PLAIN], &RenderConfig::default());
    let before = surface.config;
    surface.reconfigure((7, 9));
    assert_eq!((surface.config.width, surface.config.height), (7, 9));
    assert_eq!(surface.config.format, before.format);
    let depth = surface.create_depth();
    assert_eq!((depth.width, depth.height), (7, 9));
    assert_eq!(depth.format, TextureFormat::Depth32Float);
    assert!(depth.usage.attachment && depth.usage.binding);
    assert!(!depth.usage.storage && !depth.usage.copy_src && !depth.usage.copy_dst);
}

#[test]
fn a_lost_surface_is_set_up_again_once() {
    for event in [FrameEvent::Lost, FrameEvent::Outdated] {
        assert_eq!(RenderSurface::acquire_frame(event, false), FrameAction::Reconfigure);
        assert_eq!(RenderSurface::acquire_frame(event, true), FrameAction::Fail);
        assert_eq!(PaperEngine::render(event), FrameAction::Reconfigure);
    }
    for event in [FrameEvent::Ready, FrameEvent::Suboptimal] {
        assert_eq!(RenderSurface::acquire_frame(event, false), FrameAction::Draw);
        assert_eq!(RenderSurface::acquire_frame(event, true), FrameAction::Draw);
        assert_eq!(PaperEngine::render(event), FrameAction::Draw);
    }
    for event in [FrameEvent::Timeout, FrameEvent::Occluded, FrameEvent::Refused] {
        assert_eq!(RenderSurface::acquire_frame(event, false), FrameAction::Fail);
        assert_eq!(PaperEngine::render(event), FrameAction::Fail);
    }
    let PaperError::Surface(message) = PaperEngine::frame_error("Timeout");
    assert_eq!(message, "Failed to acquire surface texture: Timeout");
}

#[test]
fn errors_say_what_happened() {
    let said = |error: RenderError| error.message();
    assert_eq!(said(RenderError::NoAdapter), "no Vulkan adapter found");
    assert_eq!(
        said(RenderError::RequestDevice("x".to_string())),
        "device request failed: x"
    );
    assert_eq!(
        said(RenderError::CreateSurface("x".to_string())),
        "surface creation failed: x"
    );
    assert_eq!(
        said(RenderError::Surface("x".to_string())),
        "surface lost or timeout: x"
    );
    assert_eq!(
        said(RenderError::ShaderCompile("x".to_string())),
        "shader compilation failed: x"
    );
    assert_eq!(said(RenderError::InvalidMesh), "invalid mesh");
    assert_eq!(said(RenderError::Io("x".to_string())), "IO error: x");
}

#[test]
fn a_context_needs_an_adapter_and_a_device() {
    for debug in [false, true] {
        let plan = VulkanContext::instance_plan(debug);
        assert_eq!(plan.backends, Backends::VulkanOnly);
        assert_eq!(plan.debugging, debug);
    }
    let setup = VulkanContext::device_setup();
    assert!(setup.high_performance && !setup.fallback);
    assert!(!setup.for_surface && !setup.adapter_formats);
    assert_eq!(setup.limits, DeviceLimits::Downlevel);
    assert_eq!(PaperEngine::backends(), Backends::VulkanOnly);
    let setup = PaperEngine::device_setup();
    assert!(setup.high_performance && !setup.fallback);
    assert!(setup.for_surface && setup.adapter_formats);
    assert_eq!(setup.limits, DeviceLimits::Full);
    assert!(VulkanContext::new(true, None).is_ok());
    assert!(matches!(
        VulkanContext::new(false, Some("late".to_string())),
        Err(RenderError::NoAdapter)
    ));
    match VulkanContext::new(true, Some("busy".to_string())) {
        Err(RenderError::RequestDevice(reason)) => assert_eq!(reason, "busy"),
        _ => panic!("the device was refused"),
    }
}

#[test]
fn the_pool_holds_a_long_stroke() {
    let pool = BufferPool::new();
    assert_eq!(BufferPool::MAX_STROKE_POINTS, 16_384);
    assert_eq!(BufferPool::MAX_INDICES, 65_536);
    assert_eq!(BufferPool::UNIFORM_SIZE, 256);
    assert_eq!(pool.stroke_points.size, 262_144);
    assert_eq!(pool.stroke_points.role, BufferRole::Vertex);
    assert_eq!(pool.stroke_indices.size, 262_144);
    assert_eq!(pool.stroke_indices.role, BufferRole::Index);
    assert_eq!(pool.uniform_frame.size, 256);
    assert_eq!(pool.uniform_ink.role, BufferRole::Uniform);

    let still = FloatUnit::new(|_op: Op, _a: u64, _b: u64| 0);
    let point = StrokePoint {
        pos_mm_x: single(0),
        pos_mm_y: single(0),
        pressure: single(0),
        timestamp_secs: single(0),
        width_mm: single(0),
        aspect_ratio: single(0),
        slant_azimuth_rad: single(0),
        slant_altitude_rad: single(0),
    };
    let mesh = build_ink_mesh(&still, &vec![point; 4097], single(0));
    assert_eq!(mesh.vertex_bytes().len() as u64, pool.stroke_points.size);
    assert!(mesh.index_bytes().len() as u64 <= pool.stroke_indices.size);
}

#[test]
fn uniforms_are_laid_out_in_order() {
    let mut view = [[single(0); 4]; 4];
    for column in 0..4 {
        for row in 0..4 {
            view[column][row] = single((column * 4 + row) as u32);
        }
    }
    let frame = FrameUniforms {
        view_proj: view,
        viewport: [single(16), single(17)],
        time_secs: single(18),
        _pad1: single(19),
    };
    let expected: Vec<u8> = (0u32..20).flat_map(|word| word.to_ne_bytes()).collect();
    assert_eq!(frame.to_bytes(), expected);

    let ink = InkUniforms {
        ink_color: [single(1), single(2), single(3), single(4)],
        wetness: single(5),
        diffusion: single(6),
        roughness: single(7),
        _pad2: single(8),
    };
    let expected: Vec<u8> = (1u32..9).flat_map(|word| word.to_ne_bytes()).collect();
    assert_eq!(ink.to_bytes(), expected);
}

#[test]
fn ink_is_drawn_over_what_is_there() {
    let pipeline = InkPipeline::new(OTHER_CURVED);
    assert_eq!(pipeline.target, OTHER_CURVED);
    assert_eq!(pipeline.topology, Topology::TriangleList);
    assert_eq!(pipeline.depth_compare, Compare::Less);
    assert!(pipeline.depth_written && !pipeline.culls);
    assert_eq!(pipeline.array_stride, 16);
    let attributes: Vec<(u32, u64, u32)> = pipeline
        .attributes
        .iter()
        .map(|a| (a.floats, a.offset, a.shader_location))
        .collect();
    assert_eq!(attributes, [(2, 0, 0), (1, 8, 1), (1, 12, 2)]);
    let kinds: Vec<BindingKind> = pipeline.bindings.iter().map(|b| b.kind).collect();
    assert_eq!(
        kinds,
        [
            BindingKind::Uniform,
            BindingKind::Uniform,
            BindingKind::Texture,
            BindingKind::Texture,
            BindingKind::Sampler,
        ]
    );
    for (number, binding) in pipeline.bindings.iter().enumerate() {
        assert_eq!(binding.binding as usize, number);
        assert_eq!(binding.vertex, number == 0);
        assert!(binding.fragment && !binding.compute);
    }
    assert_eq!(pipeline.color.src, BlendFactor::SrcAlpha);
    assert_eq!(pipeline.color.dst, BlendFactor::OneMinusSrcAlpha);
    assert_eq!(pipeline.alpha.src, BlendFactor::One);
    assert_eq!(pipeline.alpha.dst, BlendFactor::OneMinusSrcAlpha);
    assert_eq!(pipeline.depth, TextureFormat::Depth32Float);

    let clear = [double(1), double(2), double(3), double(4)];
    let pass = FrameEncoder::begin_ink_pass(clear);
    assert_eq!(pass.clear_color, clear);
    assert_eq!(f32::from_bits(pass.clear_depth.bits), 1.0);
    assert!(pass.store_color && pass.store_depth);
}

#[test]
fn a_paper_is_uploaded_row_by_row() {
    let (colors, normals) = (vec![1u8; 2400], vec![2u8; 2400]);
    let uploads = upload_paper_textures(&colors, &normals, 30, 20);
    assert_eq!(uploads.paper.texture.format, TextureFormat::Rgba8UnormSrgb);
    assert_eq!(uploads.normal.texture.format, TextureFormat::Rgba8Unorm);
    assert_eq!(uploads.paper.bytes, &colors[..]);
    assert_eq!(uploads.normal.bytes, &normals[..]);
    assert_eq!(uploads.sampler.address_u, AddressMode::Repeat);
    assert_eq!(uploads.sampler.address_v, AddressMode::Repeat);
    assert_eq!(uploads.sampler.mag_filter, FilterMode::Linear);
    assert_eq!(uploads.sampler.min_filter, FilterMode::Linear);
    assert_eq!(uploads.sampler.mipmap_filter, FilterMode::Linear);
    for upload in [uploads.paper, uploads.normal] {
        assert_eq!((upload.texture.width, upload.texture.height), (30, 20));
        assert_eq!(upload.bytes_per_row, 120);
        assert_eq!(upload.rows_per_image, 20);
        assert!(upload.texture.usage.binding && upload.texture.usage.copy_dst);
        assert!(!upload.texture.usage.attachment);
    }
}

#[test]
fn the_paper_engine_binds_its_layers_in_order() {
    let formats = [OTHER_CURVED, TextureFormat::Rgba8Unorm, TextureFormat::Rgba8UnormSrgb];
    let engine = PaperEngine::new(&formats, 64, 48);
    assert_eq!(engine.config.format, TextureFormat::Rgba8Unorm);
    assert_eq!(engine.config.present_mode, PresentMode::Fifo);
    assert_eq!(engine.config.alpha_mode, AlphaMode::Auto);
    assert_eq!((engine.config.width, engine.config.height), (64, 48));
    assert_eq!(engine.params_buffer.size, 44);
    assert_eq!(engine.params_buffer.role, BufferRole::Uniform);
    assert_eq!(engine.noise_buffer.size, 1024);
    assert_eq!(engine.noise_buffer.role, BufferRole::Storage);
    assert_eq!(engine.bindings.len(), 7);
    assert_eq!(engine.bindings[0].kind, BindingKind::Uniform);
    assert_eq!(engine.bindings[1].kind, BindingKind::ReadOnlyStorage);
    let entries: Vec<&str> = Layer::all().iter().map(|l| l.entry_point()).collect();
    assert_eq!(entries, ["paper_base", "grain", "fiber", "water", "composite"]);
    for (place, texture) in engine.textures.iter().enumerate() {
        let binding = engine.bindings[place + 2];
        assert_eq!(binding.binding as usize, place + 2);
        assert!(binding.compute && !binding.vertex && !binding.fragment);
        assert_eq!(binding.kind, BindingKind::StorageTexture(texture.format));
        assert_eq!((texture.width, texture.height), (64, 48));
        assert_eq!(texture.usage.copy_src, place == 4);
        assert!(texture.usage.storage && texture.usage.binding);
    }
    assert_eq!(engine.resources[0], Resource::Params);
    assert_eq!(engine.resources[1], Resource::Noise);
    for (place, layer) in Layer::all().iter().enumerate() {
        assert_eq!(engine.resources[place + 2], Resource::Texture(*layer));
    }
    let blit = engine.blit();
    assert_eq!(blit.source, Layer::Composite);
    assert_eq!((blit.width, blit.height), (64, 48));
    assert_eq!(engine.textures[3].format, TextureFormat::Rgba16Float);
    assert_eq!(engine.textures[4].format, TextureFormat::Rgba8Unorm);
    assert_eq!(PaperEngine::new(&[OTHER_PLAIN], 1, 1).config.format, OTHER_PLAIN);
}

#[test]
fn the_noise_table_grows_from_its_seed() {
    let table = PaperEngine::generate_noise_seed(0x0123_4567_89AB_CDEF);
    let mut state: u64 = 0x0123_4567_89AB_CDEF;
    let expected: Vec<u32> = (0..256)
        .map(|_| {
            state = state.wrapping_mul(747796405).wrapping_add(2891336453);
            (state >> 32) as u32
        })
        .collect();
    assert_eq!(table, expected);
    assert_eq!(PaperEngine::generate_noise_seed(0)[0], 0);
    assert_eq!(PaperEngine::generate_noise_seed(0)[1], 503_410_354);
}

#[test]
fn workgroups_cover_the_paper() {
    for (pixels, groups) in [(0, 0), (1, 1), (8, 1), (9, 2), (1024, 128), (u32::MAX - 7, 0x1FFF_FFFF)] {
        assert_eq!(PaperEngine::workgroups(pixels), groups);
    }
    let params = PaperParams {
        width: 9,
        height: 16,
        seed: 3,
        grain_intensity: single(4),
        fiber_density: single(5),
        water_stain_count: 6,
        aging_yellow: single(7),
        fiber_direction: single(8),
        roughness: single(9),
        _pad: [single(10), single(11)],
    };
    let pass = PaperEngine::generate(&params, 77);
    assert_eq!(pass.layers, Layer::all());
    assert_eq!((pass.groups_x, pass.groups_y), (2, 2));
    let expected: Vec<u8> = [9u32, 16, 3, 4, 5, 6, 7, 8, 9, 10, 11]
        .iter()
        .flat_map(|word| word.to_ne_bytes())
        .collect();
    assert_eq!(pass.params, expected);
    let noise: Vec<u8> = PaperEngine::generate_noise_seed(77)
        .iter()
        .flat_map(|word| word.to_ne_bytes())
        .collect();
    assert_eq!(pass.noise, noise);
    assert_eq!(pass.noise.len(), 1024);
}

#[test]
fn command_lines_name_their_tasks() {
    let asked = |words: &[&str]| {
        let words: Vec<String> = words.iter().map(|word| word.to_string()).collect();
        task(&words)
    };
    assert_eq!(asked(&[]), Task::Usage);
    assert_eq!(asked(&["xtask"]), Task::Usage);
    assert_eq!(asked(&["xtask", "gen-header"]), Task::GenHeader);
    assert_eq!(asked(&["xtask", "build-android", "more"]), Task::BuildAndroid);
    assert_eq!(asked(&["xtask", "bench"]), Task::Bench);
    assert_eq!(asked(&["xtask", "Bench"]), Task::Unknown);
}

#[test]
fn builds_stop_at_the_first_failure() {
    let targets: Vec<&str> = (0..TARGETS).map(target).collect();
    assert_eq!(
        targets,
        ["armv7-linux-androideabi", "aarch64-linux-android", "x86_64-linux-android"]
    );
    assert!(matches!(after_build(0, true), BuildStep::Build(1)));
    assert!(matches!(after_build(1, true), BuildStep::Build(2)));
    assert!(matches!(after_build(2, true), BuildStep::Done));
    match after_build(1, false) {
        BuildStep::Failed(message) => {
            assert_eq!(message, "Build failed for aarch64-linux-android")
        }
        other => panic!("{other:?}"),
    }
    assert_eq!(
        build_args(target(0)),
        ["ndk", "-t", "armv7-linux-androideabi", "build", "-p", "hw-ffi", "--release"]
    );
    assert_eq!(bench_args(), ["bench", "--workspace"]);
    assert_eq!(bench_failure(true), None);
    assert_eq!(bench_failure(false), Some("Benchmarks failed"));
}
