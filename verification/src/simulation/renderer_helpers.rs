use crate::simulation::configs::{Color32, FluidConfigs};
use crate::simulation::fluid::ContainerWall;
use crate::text::{decimal_string, spec_decimal};
use vstd::prelude::*;

verus! {

/// The file name under which one rendered density frame is saved: the target
/// directory, then `density<frame_number>.jpg`.
pub fn density_img_path(save_into_dir: &str, frame_number: i64) -> (r: String)
    requires
        0 <= frame_number,
    ensures
        r@ == save_into_dir@ + "/density"@ + spec_decimal(frame_number as nat) + ".jpg"@,
{
    let mut path = save_into_dir.to_owned();
    path.append("/density");
    let number = decimal_string(frame_number as u64);
    path.append(number.as_str());
    path.append(".jpg");
    proof {
        assert(path@ =~= save_into_dir@ + "/density"@ + spec_decimal(frame_number as nat)
            + ".jpg"@);
    }
    path
}

/// Listens for a signal that a frame of the simulation is ready, and then
/// renders it: each grid cell becomes one pixel of the frame's image. The
/// rasterization loop and the file writing live with the I/O layer; here
/// stand the listener's state and the per-pixel color rule it follows.
#[derive(Clone)]
pub struct RenderingListener {
    /// The directory in which the rendered images that result from the
    /// simulation are stored.
    pub save_into_dir: String,

    /// The color of all obstacles. Obstacles cannot be set individual colors.
    pub obstacles_color: Color32,
}

impl RenderingListener {
    /// The color of one rasterized pixel: a wall cell is drawn as an
    /// obstacle, an open cell carrying density as fluid, any other cell as
    /// the surrounding world. Weighting the fluid color by the cell's density
    /// is the integrator's floating-point work, so the weighted color and the
    /// density test come in as arguments; this rule decides which of the
    /// three colors the pixel gets.
    pub fn pixel_color(
        &self,
        fluid_configs: &FluidConfigs,
        cell_type: ContainerWall,
        density_is_zero: bool,
        weighted_fluid_color: Color32,
    ) -> (c: Color32)
        ensures
            c == (if cell_type == ContainerWall::DefaultWall {
                self.obstacles_color
            } else if !density_is_zero {
                weighted_fluid_color
            } else {
                fluid_configs.world_color
            }),
    {
        if cell_type == ContainerWall::DefaultWall {
            self.obstacles_color
        } else if !density_is_zero && cell_type == ContainerWall::NoWall {
            weighted_fluid_color
        } else {
            fluid_configs.world_color
        }
    }
}

impl Default for RenderingListener {
    /// A listener saving into the stock directory, drawing obstacles in red.
    fn default() -> (r: RenderingListener)
        ensures
            r.save_into_dir@ == "rendered_images"@,
            r.obstacles_color == (Color32 { r: 255u8, g: 0u8, b: 0u8, a: 255u8 }),
    {
        RenderingListener {
            save_into_dir: "rendered_images".to_owned(),
            obstacles_color: Color32::red(),
        }
    }
}

} // verus!
