use crate::route_error::{InsertError, MatchError};
use crate::segment_lexer::SegmentLexer;
use crate::segment_type::{spec_same_segment, SegmentType};
use vstd::prelude::*;

verus! {

/// An index into a path router's segment table.
#[derive(Clone, Copy, Debug, PartialEq, Eq, Structural)]
pub struct SegmentIdx(pub usize);

/// An index into a path router's route table.
#[derive(Clone, Copy, Debug, PartialEq, Eq, Structural)]
pub struct RouteIdx(pub usize);

/// One node of the route tree: its segment, its parent, its children.
#[derive(Clone, Debug, PartialEq)]
pub struct Route {
    pub segment_idx: SegmentIdx,
    pub parent: Option<RouteIdx>,
    pub children: Vec<RouteIdx>,
}

/// A route tree over interned path segments.
#[derive(Debug)]
pub struct PathRouter<'a> {
    pub segments: Vec<SegmentType<'a>>,
    pub routes: Vec<Route>,
}

impl<'a> PathRouter<'a> {
    /// Every stored index points into the tables: each route's segment
    /// index is in range, and so are its children.
    pub open spec fn wf(self) -> bool {
        forall|i: int|
            0 <= i < self.routes@.len() ==> {
                &&& (#[trigger] self.routes@[i]).segment_idx.0 < self.segments@.len()
                &&& forall|j: int|
                    0 <= j < self.routes@[i].children@.len() ==> (
                    #[trigger] self.routes@[i].children@[j]).0 < self.routes@.len()
            }
    }

    /// An empty route tree.
    pub fn new() -> (r: Self)
        ensures
            r.wf(),
            r.segments@.len() == 0,
            r.routes@.len() == 0,
    {
        PathRouter { segments: Vec::new(), routes: Vec::new() }
    }

    /// Finds a segment equal by contents to the given one.
    fn get_segment(&mut self, segment: &SegmentType<'a>) -> (r: Option<SegmentIdx>)
        ensures
            *final(self) == *old(self),
            r matches Some(ix) ==> ix.0 < old(self).segments@.len() && spec_same_segment(
                old(self).segments@[ix.0 as int],
                *segment,
            ),
    {
        let mut i: usize = 0;
        while i < self.segments.len()
            invariant
                *self == *old(self),
                i <= self.segments@.len(),
            decreases self.segments@.len() - i,
        {
            if self.segments[i] == *segment {
                return Some(SegmentIdx(i));
            }
            i = i + 1;
        }
        None
    }

    /// Finds or interns the given segment, returning its index.
    fn get_or_insert_segment(&mut self, segment: SegmentType<'a>) -> (r: SegmentIdx)
        requires
            old(self).wf(),
        ensures
            final(self).wf(),
            final(self).routes == old(self).routes,
            old(self).segments@.len() <= final(self).segments@.len(),
            r.0 < final(self).segments@.len(),
            spec_same_segment(final(self).segments@[r.0 as int], segment),
    {
        match self.get_segment(&segment) {
            Some(ix) => ix,
            None => {
                self.segments.push(segment);
                SegmentIdx(self.segments.len() - 1)
            },
        }
    }

    /// Registers the root node, which carries the empty static segment.
    fn insert_root_node(&mut self)
        requires
            old(self).wf(),
        ensures
            final(self).wf(),
            final(self).routes@.len() == old(self).routes@.len() + 1,
            old(self).segments@.len() <= final(self).segments@.len(),
    {
        let segment = SegmentType::Static { path: "" };
        let segment_idx = self.get_or_insert_segment(segment);
        let root = Route { segment_idx, parent: None, children: Vec::new() };
        self.routes.push(root);
    }

    /// Finds the child of the given route that carries the given segment.
    fn find_child_node_by_segment(&self, route_idx: RouteIdx, segment_idx: SegmentIdx) -> (r:
        Option<RouteIdx>)
        requires
            self.wf(),
            route_idx.0 < self.routes@.len(),
        ensures
            r matches Some(child) ==> child.0 < self.routes@.len(),
    {
        let route = &self.routes[route_idx.0];
        let mut i: usize = 0;
        while i < route.children.len()
            invariant
                self.wf(),
                route_idx.0 < self.routes@.len(),
                route == self.routes@[route_idx.0 as int],
                i <= route.children@.len(),
            decreases route.children@.len() - i,
        {
            let child = route.children[i];
            if self.routes[child.0].segment_idx == segment_idx {
                return Some(child);
            }
            i = i + 1;
        }
        None
    }

    /// Adds a new route as a child of the given parent and returns its
    /// index.
    fn insert_new_node_as_child(&mut self, parent_route_idx: RouteIdx, segment_idx: SegmentIdx)
        -> (r: RouteIdx)
        requires
            old(self).wf(),
            parent_route_idx.0 < old(self).routes@.len(),
            segment_idx.0 < old(self).segments@.len(),
        ensures
            final(self).wf(),
            final(self).segments == old(self).segments,
            final(self).routes@.len() == old(self).routes@.len() + 1,
            r.0 == old(self).routes@.len(),
    {
        let new_route_id = RouteIdx(self.routes.len());
        let route = Route { segment_idx, parent: Some(parent_route_idx), children: Vec::new() };
        self.routes.push(route);
        let old_parent = &self.routes[parent_route_idx.0];
        let mut children: Vec<RouteIdx> = Vec::new();
        let mut i: usize = 0;
        while i < old_parent.children.len()
            invariant
                parent_route_idx.0 < self.routes@.len(),
                old_parent == self.routes@[parent_route_idx.0 as int],
                i <= old_parent.children@.len(),
                children@ == old_parent.children@.take(i as int),
            decreases old_parent.children@.len() - i,
        {
            children.push(old_parent.children[i]);
            proof {
                assert(children@ =~= old_parent.children@.take(i + 1));
            }
            i = i + 1;
        }
        proof {
            assert(children@ =~= self.routes@[parent_route_idx.0 as int].children@);
        }
        children.push(new_route_id);
        let parent = Route {
            segment_idx: self.routes[parent_route_idx.0].segment_idx,
            parent: self.routes[parent_route_idx.0].parent,
            children,
        };
        self.routes.set(parent_route_idx.0, parent);
        new_route_id
    }

    /// Inserts a path into the route tree, interning each of its segments
    /// and creating nodes along the way; returns the index of the path's
    /// final node. The empty path is rejected, and nothing may follow a
    /// consume or wildcard segment.
    pub fn insert(&mut self, path: &'a str) -> (r: Result<RouteIdx, InsertError>)
        requires
            old(self).wf(),
        ensures
            final(self).wf(),
            path@.len() == 0 <==> r == Err::<RouteIdx, InsertError>(InsertError::EmptyPath),
            r matches Ok(ix) ==> ix.0 < final(self).routes@.len()
                && final(self).routes@.len() >= 1,
    {
        if path.as_bytes().len() == 0 {
            proof {
                crate::lexer::lemma_bytes_empty_iff(path@);
            }
            return Err(InsertError::EmptyPath);
        }
        proof {
            crate::lexer::lemma_bytes_empty_iff(path@);
        }
        // Need to register the root node if it's not already
        if self.routes.len() == 0 {
            self.insert_root_node();
        }
        let mut parent_route_idx = RouteIdx(0);
        let mut segment_idx = SegmentIdx(0);
        let mut lexer: SegmentLexer<'a, SegmentType<'a>> = SegmentLexer::new(path);
        let ghost entry_routes = self.routes@.len();
        loop
            invariant
                path@.len() != 0,
                self.wf(),
                lexer.wf(),
                self.routes@.len() >= 1,
                parent_route_idx.0 < self.routes@.len(),
                segment_idx.0 < self.segments@.len() || segment_idx.0 == 0,
            ensures
                self.wf(),
                self.routes@.len() >= 1,
                parent_route_idx.0 < self.routes@.len(),
            decreases lexer.spec_bytes().len() - lexer.spec_cursor(),
        {
            let ghost pre_lexer = lexer;
            let item = match lexer.next() {
                Some(item) => item,
                None => {
                    break ;
                },
            };
            proof {
                crate::lexer::lemma_next_slash_bounds(
                    pre_lexer.spec_bytes(),
                    pre_lexer.spec_cursor() + 1,
                );
            }
            // Should not define path following a consume or wildcard
            if self.segments.len() > 0 && segment_idx.0 < self.segments.len() {
                match self.segments[segment_idx.0] {
                    SegmentType::Consume { .. } => {
                        return Err(InsertError::TrailingWildcardPath);
                    },
                    SegmentType::Wildcard => {
                        return Err(InsertError::TrailingWildcardPath);
                    },
                    _ => {},
                }
            }
            let (segment, _span) = match item {
                Ok(pair) => pair,
                Err(e) => {
                    return Err(e);
                },
            };
            segment_idx = self.get_or_insert_segment(segment);
            // Set up this segment as the child of the current node
            match self.find_child_node_by_segment(parent_route_idx, segment_idx) {
                Some(child_route_idx) => {
                    parent_route_idx = child_route_idx;
                },
                None => {
                    parent_route_idx = self.insert_new_node_as_child(
                        parent_route_idx,
                        segment_idx,
                    );
                },
            }
        }
        Ok(parent_route_idx)
    }

    /// Evaluates a path against the tree. Matching is not implemented yet,
    /// so every path reports that no route was found.
    pub fn eval(&self, path: &str) -> (r: Result<PathMatch, MatchError>)
        ensures
            r == Err::<PathMatch, MatchError>(MatchError::NotFound),
    {
        Err(MatchError::NotFound)
    }
}

/// The outcome of a successful route match.
#[derive(Clone, Debug)]
pub struct PathMatch {
    pub route: RouteIdx,
}

} // verus!
