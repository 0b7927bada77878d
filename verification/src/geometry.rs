//! Map positions, tile extents, window requests and viewport clamping.

use vstd::prelude::*;

verus! {

/// A map coordinate: `x` grows eastward along a row, `y` grows southward across rows.
#[derive(Clone, Copy, Debug, PartialEq, Eq, Structural, Hash)]
pub struct Position {
    pub x: i32,
    pub y: i32,
}

impl Position {
    /// Creates a position from its two coordinates.
    pub fn new(x: i32, y: i32) -> (p: Position)
        ensures
            p.x == x,
            p.y == y,
    {
        Position { x, y }
    }

    /// Returns the horizontal coordinate.
    pub fn x(self) -> (r: i32)
        ensures
            r == self.x,
    {
        self.x
    }

    /// Returns the vertical coordinate.
    pub fn y(self) -> (r: i32)
        ensures
            r == self.y,
    {
        self.y
    }
}

/// One of the four cardinal movement directions.
#[derive(Clone, Copy, Debug, PartialEq, Eq, Structural, Hash)]
pub enum Direction {
    North,
    South,
    West,
    East,
}

/// A logical-pixel origin for a map-backed scene mirror.
///
/// This is placement metadata only: the model is the pair `(x, y)`.
#[derive(Clone, Copy, Debug, PartialEq, Eq)]
pub struct ScenePixelPosition {
    x: u32,
    y: u32,
}

impl View for ScenePixelPosition {
    type V = (u32, u32);

    closed spec fn view(&self) -> (u32, u32) {
        (self.x, self.y)
    }
}

/// The pixel origin whose model is `v`.
pub closed spec fn pixel_of(v: (u32, u32)) -> ScenePixelPosition {
    ScenePixelPosition { x: v.0, y: v.1 }
}

impl ScenePixelPosition {
    /// Returns the logical horizontal pixel origin.
    pub fn x(self) -> (r: u32)
        ensures
            r == self@.0,
    {
        self.x
    }

    /// Returns the logical vertical pixel origin.
    pub fn y(self) -> (r: u32)
        ensures
            r == self@.1,
    {
        self.y
    }
}

/// A caller-selected logical tile extent `(width, height)`, both non-zero.
#[derive(Clone, Copy, Debug, PartialEq, Eq)]
pub struct PresentationTileSize {
    width: u32,
    height: u32,
}

impl View for PresentationTileSize {
    type V = (u32, u32);

    closed spec fn view(&self) -> (u32, u32) {
        (self.width, self.height)
    }
}

/// The logical-pixel origin of map cell `(x, y)` for tiles of extent `(tile_width, tile_height)`,
/// or `None` for a negative coordinate or a product that does not fit in `u32`.
pub open spec fn spec_pixel_position(x: int, y: int, tile_width: int, tile_height: int) -> Option<(u32, u32)> {
    if x < 0 || y < 0 || x * tile_width > u32::MAX || y * tile_height > u32::MAX {
        None
    } else {
        Some(((x * tile_width) as u32, (y * tile_height) as u32))
    }
}

/// The pixel origin of `position` for tiles of extent `tile_size`, when it exists.
pub open spec fn spec_pixel_at(tile_size: PresentationTileSize, position: Position) -> Option<ScenePixelPosition> {
    match spec_pixel_position(
        position.x as int,
        position.y as int,
        tile_size@.0 as int,
        tile_size@.1 as int,
    ) {
        Some(v) => Some(pixel_of(v)),
        None => None,
    }
}

impl PresentationTileSize {
    #[verifier::type_invariant]
    closed spec fn non_empty(self) -> bool {
        self.width > 0 && self.height > 0
    }

    /// Creates a non-empty logical tile extent.
    pub fn new(width: u32, height: u32) -> (result: Option<Self>)
        ensures
            result is Some <==> (width > 0 && height > 0),
            result matches Some(size) ==> size@ == (width, height),
    {
        if width == 0 || height == 0 {
            return None;
        }
        Some(PresentationTileSize { width, height })
    }

    /// Returns the logical tile width, which is never zero.
    pub fn width(self) -> (r: u32)
        ensures
            r == self@.0,
            r > 0,
    {
        proof {
            use_type_invariant(&self);
        }
        self.width
    }

    /// Returns the logical tile height, which is never zero.
    pub fn height(self) -> (r: u32)
        ensures
            r == self@.1,
            r > 0,
    {
        proof {
            use_type_invariant(&self);
        }
        self.height
    }

    /// Converts an in-map coordinate into a checked logical-pixel origin.
    pub fn pixel_position(self, position: Position) -> (result: Option<ScenePixelPosition>)
        ensures
            result == spec_pixel_at(self, position),
            result matches Some(p) ==> spec_pixel_position(
                position.x as int,
                position.y as int,
                self@.0 as int,
                self@.1 as int,
            ) == Some(p@),
            result is None ==> spec_pixel_position(
                position.x as int,
                position.y as int,
                self@.0 as int,
                self@.1 as int,
            ) is None,
    {
        if position.x < 0 || position.y < 0 {
            return None;
        }
        let x = position.x as u32;
        let y = position.y as u32;
        let px = match x.checked_mul(self.width) {
            Some(v) => v,
            None => return None,
        };
        let py = match y.checked_mul(self.height) {
            Some(v) => v,
            None => return None,
        };
        Some(ScenePixelPosition { x: px, y: py })
    }
}

/// A validated logical window request.
///
/// The model is `(logical_width, logical_height, pixel_scale)`; the physical extents are the
/// logical extents multiplied by the scale, which the type guarantees to fit in `u32`.
#[derive(Clone, Copy, Debug, PartialEq, Eq)]
pub struct PresentationWindow {
    logical_width: u32,
    logical_height: u32,
    pixel_scale: u32,
    physical_width: u32,
    physical_height: u32,
}

impl View for PresentationWindow {
    type V = (u32, u32, u32);

    closed spec fn view(&self) -> (u32, u32, u32) {
        (self.logical_width, self.logical_height, self.pixel_scale)
    }
}

/// Whether a logical window of `width` by `height` at integer `scale` is a valid request.
pub open spec fn valid_window_request(width: int, height: int, scale: int) -> bool {
    &&& width > 0
    &&& height > 0
    &&& scale > 0
    &&& width * scale <= u32::MAX
    &&& height * scale <= u32::MAX
}

impl PresentationWindow {
    #[verifier::type_invariant]
    closed spec fn checked_extents(self) -> bool {
        &&& valid_window_request(
            self.logical_width as int,
            self.logical_height as int,
            self.pixel_scale as int,
        )
        &&& self.physical_width == self.logical_width * self.pixel_scale
        &&& self.physical_height == self.logical_height * self.pixel_scale
    }

    /// Creates a non-empty request with checked integer pixel dimensions.
    pub fn new(logical_width: u32, logical_height: u32, pixel_scale: u32) -> (result: Option<Self>)
        ensures
            result is Some <==> valid_window_request(
                logical_width as int,
                logical_height as int,
                pixel_scale as int,
            ),
            result matches Some(w) ==> w@ == (logical_width, logical_height, pixel_scale),
    {
        if logical_width == 0 || logical_height == 0 || pixel_scale == 0 {
            return None;
        }
        let physical_width = match logical_width.checked_mul(pixel_scale) {
            Some(v) => v,
            None => return None,
        };
        let physical_height = match logical_height.checked_mul(pixel_scale) {
            Some(v) => v,
            None => return None,
        };
        Some(PresentationWindow {
            logical_width,
            logical_height,
            pixel_scale,
            physical_width,
            physical_height,
        })
    }

    /// Returns the logical width before pixel scaling.
    pub fn logical_width(self) -> (r: u32)
        ensures
            r == self@.0,
    {
        self.logical_width
    }

    /// Returns the logical height before pixel scaling.
    pub fn logical_height(self) -> (r: u32)
        ensures
            r == self@.1,
    {
        self.logical_height
    }

    /// Returns the integer scale from logical to physical pixels.
    pub fn pixel_scale(self) -> (r: u32)
        ensures
            r == self@.2,
    {
        self.pixel_scale
    }

    /// Returns the checked physical width.
    pub fn physical_width(self) -> (r: u32)
        ensures
            r == self@.0 * self@.2,
            valid_window_request(self@.0 as int, self@.1 as int, self@.2 as int),
    {
        proof {
            use_type_invariant(&self);
        }
        self.physical_width
    }

    /// Returns the checked physical height.
    pub fn physical_height(self) -> (r: u32)
        ensures
            r == self@.1 * self@.2,
            valid_window_request(self@.0 as int, self@.1 as int, self@.2 as int),
    {
        proof {
            use_type_invariant(&self);
        }
        self.physical_height
    }
}

/// A disposable scene mirror of one validated window configuration request.
#[derive(Clone, Copy, Debug, PartialEq, Eq)]
pub struct SceneWindow {
    logical_width: u32,
    logical_height: u32,
    pixel_scale: u32,
    physical_width: u32,
    physical_height: u32,
}

impl View for SceneWindow {
    type V = (u32, u32, u32, u32, u32);

    closed spec fn view(&self) -> (u32, u32, u32, u32, u32) {
        (
            self.logical_width,
            self.logical_height,
            self.pixel_scale,
            self.physical_width,
            self.physical_height,
        )
    }
}

impl SceneWindow {
    /// Creates a window mirror that copies every dimension of a validated request.
    pub fn new(request: PresentationWindow) -> (w: Self)
        ensures
            w@ == (
                request@.0,
                request@.1,
                request@.2,
                (request@.0 * request@.2) as u32,
                (request@.1 * request@.2) as u32,
            ),
    {
        SceneWindow {
            logical_width: request.logical_width(),
            logical_height: request.logical_height(),
            pixel_scale: request.pixel_scale(),
            physical_width: request.physical_width(),
            physical_height: request.physical_height(),
        }
    }

    /// Returns the requested logical width.
    pub fn logical_width(self) -> (r: u32)
        ensures
            r == self@.0,
    {
        self.logical_width
    }

    /// Returns the requested logical height.
    pub fn logical_height(self) -> (r: u32)
        ensures
            r == self@.1,
    {
        self.logical_height
    }

    /// Returns the requested integer pixel scale.
    pub fn pixel_scale(self) -> (r: u32)
        ensures
            r == self@.2,
    {
        self.pixel_scale
    }

    /// Returns the checked physical width.
    pub fn physical_width(self) -> (r: u32)
        ensures
            r == self@.3,
    {
        self.physical_width
    }

    /// Returns the checked physical height.
    pub fn physical_height(self) -> (r: u32)
        ensures
            r == self@.4,
    {
        self.physical_height
    }
}

/// The first map index of a viewport axis of `extent` tiles centred on `center`, clamped so the
/// viewport stays inside `[0, map_extent)`; a clamped value beyond `i32` becomes `0`.
pub open spec fn spec_clamped_viewport_axis(center: int, extent: int, map_extent: int) -> int {
    let desired = center - extent / 2;
    let maximum = if map_extent >= extent { map_extent - extent } else { 0 };
    let clamped = if desired < 0 { 0 } else if desired > maximum { maximum } else { desired };
    if clamped <= i32::MAX { clamped } else { 0 }
}

/// Returns the clamped first index of one viewport axis.
pub fn clamped_viewport_axis(center: i32, extent: u32, map_extent: u32) -> (r: i32)
    ensures
        r == spec_clamped_viewport_axis(center as int, extent as int, map_extent as int),
        0 <= r,
        extent <= map_extent ==> r + extent <= map_extent,
{
    let half_extent = (extent / 2) as i64;
    let desired = center as i64 - half_extent;
    let maximum = map_extent.saturating_sub(extent) as i64;
    let clamped = if desired < 0 {
        0
    } else if desired > maximum {
        maximum
    } else {
        desired
    };
    if clamped <= i32::MAX as i64 {
        clamped as i32
    } else {
        0
    }
}

/// A viewport axis centres its window on the centre cell whenever the map leaves room: with
/// `extent / 2` cells on the near side of the centre and the window inside the map, the window
/// starts `extent / 2` cells before the centre. In every case the window holds the centre cell
/// when the map is at least as large as the window and holds that cell.
pub proof fn lemma_viewport_centres(center: int, extent: int, map_extent: int)
    requires
        0 <= center <= i32::MAX,
        0 <= extent,
        0 <= map_extent,
    ensures
        extent / 2 <= center && center - extent / 2 + extent <= map_extent ==> center
            - spec_clamped_viewport_axis(center, extent, map_extent) == extent / 2,
        0 < extent <= map_extent && center < map_extent ==> spec_clamped_viewport_axis(center, extent, map_extent)
            <= center < spec_clamped_viewport_axis(center, extent, map_extent) + extent,
{
}

/// A deterministic tile viewport requested by a presentation client.
///
/// The model is `(width, height, origin, effective_width, effective_height)`: the requested
/// non-zero extent and the placement computed against the latest map and camera center.
#[derive(Clone, Copy, Debug, PartialEq, Eq)]
pub struct PresentationViewport {
    width: u32,
    height: u32,
    origin: Option<Position>,
    effective_width: u32,
    effective_height: u32,
}

impl View for PresentationViewport {
    type V = (u32, u32, Option<Position>, u32, u32);

    closed spec fn view(&self) -> (u32, u32, Option<Position>, u32, u32) {
        (self.width, self.height, self.origin, self.effective_width, self.effective_height)
    }
}

impl PresentationViewport {
    #[verifier::type_invariant]
    closed spec fn non_empty(self) -> bool {
        self.width > 0 && self.height > 0
    }

    /// Creates a non-empty viewport request with no placement yet.
    pub fn new(width: u32, height: u32) -> (result: Option<Self>)
        ensures
            result is Some <==> (width > 0 && height > 0),
            result matches Some(v) ==> v@ == (width, height, None::<Position>, 0u32, 0u32),
    {
        if width == 0 || height == 0 {
            return None;
        }
        Some(
            PresentationViewport {
                width,
                height,
                origin: None,
                effective_width: 0,
                effective_height: 0,
            },
        )
    }

    /// Returns the requested viewport width in tiles.
    pub fn width(self) -> (r: u32)
        ensures
            r == self@.0,
            r > 0,
    {
        proof {
            use_type_invariant(&self);
        }
        self.width
    }

    /// Returns the requested viewport height in tiles.
    pub fn height(self) -> (r: u32)
        ensures
            r == self@.1,
            r > 0,
    {
        proof {
            use_type_invariant(&self);
        }
        self.height
    }

    /// Returns the clamped map origin, or `None` without an authoritative center.
    pub fn origin(self) -> (r: Option<Position>)
        ensures
            r == self@.2,
    {
        self.origin
    }

    /// Returns the effective in-map width after clamping to the current map.
    pub fn effective_width(self) -> (r: u32)
        ensures
            r == self@.3,
    {
        self.effective_width
    }

    /// Returns the effective in-map height after clamping to the current map.
    pub fn effective_height(self) -> (r: u32)
        ensures
            r == self@.4,
    {
        self.effective_height
    }

    /// Places the viewport for the current camera center on a map of the given extent.
    ///
    /// Without a center the placement is cleared. Otherwise each effective extent is the smaller
    /// of the request and the map, and the origin centers the camera as far as the map allows.
    pub fn place(&mut self, center: Option<Position>, map_width: u32, map_height: u32)
        ensures
            final(self)@.0 == old(self)@.0,
            final(self)@.1 == old(self)@.1,
            match center {
                None => final(self)@.2 is None && final(self)@.3 == 0 && final(self)@.4 == 0,
                Some(c) => {
                    let ew = if old(self)@.0 <= map_width { old(self)@.0 } else { map_width };
                    let eh = if old(self)@.1 <= map_height { old(self)@.1 } else { map_height };
                    &&& final(self)@.3 == ew
                    &&& final(self)@.4 == eh
                    &&& final(self)@.2 == Some(
                        Position {
                            x: spec_clamped_viewport_axis(c.x as int, ew as int, map_width as int) as i32,
                            y: spec_clamped_viewport_axis(c.y as int, eh as int, map_height as int) as i32,
                        },
                    )
                    &&& 0 <= final(self)@.2->0.x
                    &&& final(self)@.2->0.x + ew <= map_width
                    &&& 0 <= final(self)@.2->0.y
                    &&& final(self)@.2->0.y + eh <= map_height
                },
            },
    {
        proof {
            use_type_invariant(&*self);
        }
        match center {
            None => {
                self.origin = None;
                self.effective_width = 0;
                self.effective_height = 0;
            },
            Some(c) => {
                let effective_width = if self.width <= map_width {
                    self.width
                } else {
                    map_width
                };
                let effective_height = if self.height <= map_height {
                    self.height
                } else {
                    map_height
                };
                let x = clamped_viewport_axis(c.x, effective_width, map_width);
                let y = clamped_viewport_axis(c.y, effective_height, map_height);
                self.origin = Some(Position { x, y });
                self.effective_width = effective_width;
                self.effective_height = effective_height;
            },
        }
    }
}

} // verus!
