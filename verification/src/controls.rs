//! Camera controls: position, Euler rotation and the requested action,
//! advanced once per frame from a polled key snapshot. The caller polls
//! the platform's input state into plain booleans; everything that
//! decides how the camera moves lives here.

use vstd::prelude::*;

verus! {

use crate::fixed::{
    FX_ONE, FX_HALF_PI, fx_add, fx_add_s, fx_sub, fx_sub_s, fx_mul, fx_mul_s, fx_neg, fx_neg_s,
    fx_sin, fx_sin_s, fx_cos, fx_cos_s,
};

/// Movement speed per unit of frame time.
pub const SPEED: i64 = 655;

/// Look speed per unit of frame time.
pub const ROTSPEED: i64 = 131;

#[derive(Debug)]
pub enum Action {
    Mining,
    Placing,
    No,
}

/// One frame's polled key state: movement and look keys as held flags,
/// the mining chord as held, placing as freshly pressed.
pub struct KeySnapshot {
    pub forward: bool,
    pub backward: bool,
    pub rise: bool,
    pub fall: bool,
    pub strafe_left: bool,
    pub strafe_right: bool,
    pub look_left: bool,
    pub look_right: bool,
    pub look_up: bool,
    pub look_down: bool,
    pub mine: bool,
    pub place: bool,
}

#[derive(Debug)]
pub struct Controls {
    pub pos: [i64; 3],
    pub rot: [i64; 3],
    pub action: Action,
}

/// New x: forward and backward move along the yaw sine, strafing along
/// the yaw cosine.
pub open spec fn pos_x_s(x: int, k: KeySnapshot, sind: int, cosd: int) -> int {
    let x1 = if k.forward {
        fx_add_s(x, sind)
    } else if k.backward {
        fx_sub_s(x, sind)
    } else {
        x
    };
    let x2 = if k.strafe_left {
        fx_add_s(x1, cosd)
    } else {
        x1
    };
    if k.strafe_right {
        fx_sub_s(x2, cosd)
    } else {
        x2
    }
}

/// New y: rising and falling move straight along the vertical axis.
pub open spec fn pos_y_s(y: int, k: KeySnapshot, speedd: int) -> int {
    if k.rise {
        fx_add_s(y, speedd)
    } else if k.fall {
        fx_sub_s(y, speedd)
    } else {
        y
    }
}

/// New z: forward and backward move along the yaw cosine, strafing
/// along the yaw sine.
pub open spec fn pos_z_s(z: int, k: KeySnapshot, sind: int, cosd: int) -> int {
    let z1 = if k.forward {
        fx_add_s(z, cosd)
    } else if k.backward {
        fx_sub_s(z, cosd)
    } else {
        z
    };
    let z2 = if k.strafe_left {
        fx_sub_s(z1, sind)
    } else {
        z1
    };
    if k.strafe_right {
        fx_add_s(z2, sind)
    } else {
        z2
    }
}

/// New pitch: looking up and down.
pub open spec fn rot_x_s(rx: int, k: KeySnapshot, rotdd: int) -> int {
    if k.look_up {
        fx_sub_s(rx, rotdd)
    } else if k.look_down {
        fx_add_s(rx, rotdd)
    } else {
        rx
    }
}

/// New yaw: looking left and right.
pub open spec fn rot_y_s(ry: int, k: KeySnapshot, rotdd: int) -> int {
    if k.look_left {
        fx_add_s(ry, rotdd)
    } else if k.look_right {
        fx_sub_s(ry, rotdd)
    } else {
        ry
    }
}

/// The action: mining wins over placing; otherwise none.
pub open spec fn action_s(k: KeySnapshot) -> Action {
    if k.mine {
        Action::Mining
    } else if k.place {
        Action::Placing
    } else {
        Action::No
    }
}

/// The look direction for a pitch and yaw: unit vector in fixed point,
/// with the pipeline's sign convention.
pub open spec fn rot_to_dir_s(p: int, yw: int) -> (int, int, int) {
    (
        fx_mul_s(fx_cos_s(p), fx_sin_s(yw)),
        fx_sin_s(p),
        fx_neg_s(fx_mul_s(fx_cos_s(p), fx_cos_s(yw))),
    )
}

/// The look direction from Euler angles: pitch and yaw decide, roll is
/// ignored.
pub fn rot_to_dir(rot: [i64; 3]) -> (dir: [i64; 3])
    ensures
        (dir[0] as int, dir[1] as int, dir[2] as int) == rot_to_dir_s(rot[0] as int, rot[1] as int),
{
    let cos_pitch: i64 = fx_cos(rot[0]);
    let sin_pitch: i64 = fx_sin(rot[0]);
    let cos_yaw: i64 = fx_cos(rot[1]);
    let sin_yaw: i64 = fx_sin(rot[1]);
    let d0: i64 = fx_mul(cos_pitch, sin_yaw);
    let d2: i64 = fx_neg(fx_mul(cos_pitch, cos_yaw));
    let out: [i64; 3] = [d0, sin_pitch, d2];
    proof {
        assert(out[0] == d0 && out[1] == sin_pitch && out[2] == d2);
    }
    out
}

impl Controls {
    /// The spawn state: high above the origin, pitched straight down.
    pub fn new() -> (c: Controls)
        ensures
            c.pos@ =~= seq![0i64, 6553600i64, -360448i64],
            c.rot@ =~= seq![FX_HALF_PI, 0i64, 0i64],
            c.action is No,
    {
        Controls {
            pos: [0, 100 * FX_ONE, -360448],
            rot: [FX_HALF_PI, 0, 0],
            action: Action::No,
        }
    }

    /// Advance one frame from the key snapshot.
    pub fn update(&mut self, keys: &KeySnapshot, deltat: i64)
        ensures
            ({
                let speedd = fx_mul_s(SPEED as int, deltat as int);
                let rotdd = fx_mul_s(ROTSPEED as int, deltat as int);
                let cosd = fx_mul_s(fx_cos_s(old(self).rot[1] as int), speedd);
                let sind = fx_mul_s(fx_sin_s(old(self).rot[1] as int), speedd);
                &&& final(self).pos[0] as int == pos_x_s(old(self).pos[0] as int, *keys, sind, cosd)
                &&& final(self).pos[1] as int == pos_y_s(old(self).pos[1] as int, *keys, speedd)
                &&& final(self).pos[2] as int == pos_z_s(old(self).pos[2] as int, *keys, sind, cosd)
                &&& final(self).rot[0] as int == rot_x_s(old(self).rot[0] as int, *keys, rotdd)
                &&& final(self).rot[1] as int == rot_y_s(old(self).rot[1] as int, *keys, rotdd)
                &&& final(self).rot[2] == old(self).rot[2]
                &&& final(self).action == action_s(*keys)
            }),
    {
        self.update_pos(keys, deltat);
    }

    fn update_pos(&mut self, keys: &KeySnapshot, deltat: i64)
        ensures
            ({
                let speedd = fx_mul_s(SPEED as int, deltat as int);
                let rotdd = fx_mul_s(ROTSPEED as int, deltat as int);
                let cosd = fx_mul_s(fx_cos_s(old(self).rot[1] as int), speedd);
                let sind = fx_mul_s(fx_sin_s(old(self).rot[1] as int), speedd);
                &&& final(self).pos[0] as int == pos_x_s(old(self).pos[0] as int, *keys, sind, cosd)
                &&& final(self).pos[1] as int == pos_y_s(old(self).pos[1] as int, *keys, speedd)
                &&& final(self).pos[2] as int == pos_z_s(old(self).pos[2] as int, *keys, sind, cosd)
                &&& final(self).rot[0] as int == rot_x_s(old(self).rot[0] as int, *keys, rotdd)
                &&& final(self).rot[1] as int == rot_y_s(old(self).rot[1] as int, *keys, rotdd)
                &&& final(self).rot[2] == old(self).rot[2]
                &&& final(self).action == action_s(*keys)
            }),
    {
        let speedd: i64 = fx_mul(SPEED, deltat);
        let rotdd: i64 = fx_mul(ROTSPEED, deltat);
        let cosrydd: i64 = fx_mul(fx_cos(self.rot[1]), speedd);
        let sinrydd: i64 = fx_mul(fx_sin(self.rot[1]), speedd);
        let mut px: i64 = self.pos[0];
        let mut py: i64 = self.pos[1];
        let mut pz: i64 = self.pos[2];
        let mut rx: i64 = self.rot[0];
        let mut ry: i64 = self.rot[1];
        if keys.forward {
            px = fx_add(px, sinrydd);
            pz = fx_add(pz, cosrydd);
        } else if keys.backward {
            px = fx_sub(px, sinrydd);
            pz = fx_sub(pz, cosrydd);
        }
        if keys.rise {
            py = fx_add(py, speedd);
        } else if keys.fall {
            py = fx_sub(py, speedd);
        }
        if keys.strafe_left {
            px = fx_add(px, cosrydd);
            pz = fx_sub(pz, sinrydd);
        }
        if keys.strafe_right {
            px = fx_sub(px, cosrydd);
            pz = fx_add(pz, sinrydd);
        }
        if keys.look_left {
            ry = fx_add(ry, rotdd);
        } else if keys.look_right {
            ry = fx_sub(ry, rotdd);
        }
        if keys.look_up {
            rx = fx_sub(rx, rotdd);
        } else if keys.look_down {
            rx = fx_add(rx, rotdd);
        }
        let action: Action = if keys.mine {
            Action::Mining
        } else if keys.place {
            Action::Placing
        } else {
            Action::No
        };
        self.pos = [px, py, pz];
        self.rot = [rx, ry, self.rot[2]];
        self.action = action;
    }

    /// The current look direction, with the yaw sign flipped as the
    /// caster expects.
    pub fn rot_dir(&self) -> (dir: [i64; 3])
        ensures
            (dir[0] as int, dir[1] as int, dir[2] as int) == rot_to_dir_s(
                self.rot[0] as int,
                fx_neg_s(self.rot[1] as int),
            ),
    {
        rot_to_dir([self.rot[0], fx_neg(self.rot[1]), self.rot[2]])
    }
}

} // verus!
