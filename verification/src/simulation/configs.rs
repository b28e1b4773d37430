use vstd::prelude::*;

verus! {

/// An RGBA color with 8-bit channels. Colors are display-only: they are
/// carried through the simulation untouched and only read when a frame is
/// rasterized.
#[derive(Clone, Copy, PartialEq, Eq, Structural, Debug)]
pub struct Color32 {
    /// The red channel.
    pub r: u8,
    /// The green channel.
    pub g: u8,
    /// The blue channel.
    pub b: u8,
    /// The alpha channel.
    pub a: u8,
}

impl Color32 {
    /// A color from its four premultiplied channels.
    pub fn from_rgba_premultiplied(r: u8, g: u8, b: u8, a: u8) -> (c: Color32)
        ensures
            c == (Color32 { r, g, b, a }),
    {
        Color32 { r, g, b, a }
    }

    /// The red color used as the default for obstacles.
    pub fn red() -> (c: Color32)
        ensures
            c == (Color32 { r: 255u8, g: 0u8, b: 0u8, a: 255u8 }),
    {
        Color32 { r: 255, g: 0, b: 0, a: 255 }
    }
}

/// Major configurations in order to run the simulation. The solver's
/// floating-point step parameters (the time step, diffusion and viscosity
/// rates) belong to the numeric integrator that consumes these
/// configurations; here live the quantities the grid bookkeeping is built
/// from.
#[derive(Clone, Copy, PartialEq, Eq, Structural, Debug)]
pub struct SimulationConfigs {
    /// Number of frames to be simulated.
    pub frames: i64,
    /// The size of the fluid container. A square container is used.
    pub size: u32,
}

impl SimulationConfigs {
    /// A run asks for at least one frame, and the grid carries at least its
    /// border rows and one interior row; the cell array must be addressable.
    pub open spec fn wf(&self) -> bool {
        &&& 0 < self.frames
        &&& 3 <= self.size
        &&& self.size * self.size <= u32::MAX
    }

    /// Creates a new SimulationConfigs struct.
    pub fn new(frames: i64, fluid_container_size: u32) -> (r: Self)
        ensures
            r.frames == frames,
            r.size == fluid_container_size,
    {
        SimulationConfigs { frames, size: fluid_container_size }
    }
}

impl Default for SimulationConfigs {
    /// The default run: sixteen frames over a 128-cell-wide container.
    fn default() -> (r: SimulationConfigs)
        ensures
            r == (SimulationConfigs { frames: 16i64, size: 128u32 }),
            r.wf(),
    {
        SimulationConfigs { frames: 16, size: 128 }
    }
}

/// Struct describing general fluid-related configurations. The fluid's
/// floating-point diffusion and viscosity rates live with the numeric
/// integrator; here stand the forcing toggle and the display colors that the
/// rendering stage reads.
#[derive(Clone, Copy, PartialEq, Eq, Structural, Debug)]
pub struct FluidConfigs {
    /// Shows if a random coherent-noise impulse is injected each frame.
    pub has_perlin_noise: bool,
    /// Fluid's color in the simulation.
    pub fluid_color: Color32,
    /// The color of the world surrounding the fluid.
    pub world_color: Color32,
}

impl Default for FluidConfigs {
    /// The default fluid: noise-forced, drawn in the stock pink on the stock
    /// blue-grey background.
    fn default() -> (r: FluidConfigs)
        ensures
            r.has_perlin_noise == true,
            r.fluid_color == (Color32 { r: 208u8, g: 88u8, b: 157u8, a: 220u8 }),
            r.world_color == (Color32 { r: 94u8, g: 146u8, b: 162u8, a: 128u8 }),
    {
        FluidConfigs {
            has_perlin_noise: true,
            fluid_color: Color32::from_rgba_premultiplied(208, 88, 157, 220),
            world_color: Color32::from_rgba_premultiplied(94, 146, 162, 128),
        }
    }
}

} // verus!
